use crate::codec;
use crate::codec::RawEntry;
use crate::engine::{Engine, EnginePhase, EntryOutcome, Step, WaitOutcome};
use crate::error::AppError;
use crate::pathguard;
use crate::prefixtree::PrefixTree;
use crate::views_of;
use std::io::Cursor;
use vstd::prelude::*;

verus! {

/// What any walk step of a run guarantees, relating the engine before (`s0`)
/// and after (`s1`) the step to what the step instructs the caller to do.
///
/// In particular: a `Notify` payload describes a nonempty validated path and
/// the tree grew by exactly its prefixes; a `Skipped` name provably escapes
/// the extraction root and the tree is untouched; a credential request leaves
/// the walk suspended; and cancellation or failure leaves the tree as it was,
/// to be discarded.
pub open spec fn walk_step_ok(s0: Engine, s1: Engine, step: Step) -> bool {
    &&& crate::engine::step_reflects(s0, s1, step)
    &&& !(step is Decrypt)
}

/// Which step a readable entry named `name` yields: its normalized path
/// decides between a notification, silence for the root, and a skip.
pub open spec fn readable_decides_step(name: Seq<char>, step: Step) -> bool {
    let pm = pathguard::path_model(name);
    &&& (pm is None ==> (step matches Step::Skipped { name: sn } && sn@ == name))
    &&& (pm matches Some(c) ==> {
        &&& (c.len() == 0 ==> step is Ignored)
        &&& (c.len() > 0 ==> (step matches Step::Notify { components, .. } && views_of(
            components@,
        ) == c))
    })
}

/// Which step decoding the entry at `index` with `password` yields, per the
/// named decode outcomes of `run0`'s archive: an entry that opens goes
/// through the path guard; anything else aborts the walk.
pub open spec fn decrypt_decides_step(
    run0: ExtractionRun,
    index: int,
    password: Seq<u8>,
    step: Step,
) -> bool {
    run0.archive_decrypts().contains_key((index, password)) ==> ({
        let d = run0.archive_decrypts()[(index, password)];
        &&& (d matches RawEntry::Opened { name, size } ==> readable_decides_step(name@, step))
        &&& (!(d is Opened) ==> (step matches Step::Fail { error } && error
            matches AppError::FailedUnzip(m) && m@ == "failed to decrypt/unzip file"@))
    })
}

/// Which step the entry at `run0`'s cursor yields, per the named per-entry
/// outcomes of its archive: a readable entry goes through the path guard, a
/// codec failure aborts with its rendering, and an encrypted entry either
/// aborts (no token), asks for a credential (uncached token), or is decoded
/// with the cached password on the spot.
pub open spec fn entry_decides_step(run0: ExtractionRun, step: Step) -> bool {
    let cur = run0.engine_view().cursor();
    let e = run0.archive_entries()[cur];
    &&& (e matches RawEntry::Opened { name, size } ==> readable_decides_step(name@, step))
    &&& (e matches RawEntry::Failed { message } ==> (step matches Step::Fail { error } && error
        matches AppError::FailedUnzip(m) && m@ == message@))
    &&& (e is NeedsPassword ==> ({
        let t = run0.archive_tokens()[cur];
        &&& (t is None ==> (step matches Step::Fail { error } && error
            matches AppError::FailedUnzip(m) && m@
            == "unable to get password, should be unreachable"@))
        &&& (t matches Some(token) ==> {
            &&& (!run0.engine_view().cred_model().contains_key(token) ==> step is AskCredential)
            &&& (run0.engine_view().cred_model().contains_key(token) ==> decrypt_decides_step(
                run0,
                cur,
                run0.engine_view().cred_model()[token],
                step,
            ))
        })
    }))
}

/// One in-flight extraction: the archive handle and the engine driving it.
///
/// The caller loops: while the phase is `Scanning` it calls [`advance`] and
/// performs what the step names (emit a notification, log a skip, emit a
/// credential request); when a credential request left the run suspended it
/// waits at the suspension point and reports the outcome through
/// [`submit`]; `Done`, `Cancelled` and `Fail` end the walk.
///
/// [`advance`]: ExtractionRun::advance
/// [`submit`]: ExtractionRun::submit
pub struct ExtractionRun {
    archive: zip::ZipArchive<Cursor<Vec<u8>>>,
    engine: Engine,
}

impl ExtractionRun {
    /// The engine as the contracts speak of it.
    pub closed spec fn engine_view(self) -> Engine {
        self.engine
    }

    /// The archive's named per-entry read outcomes.
    pub closed spec fn archive_entries(self) -> Seq<RawEntry> {
        codec::entries_of(self.archive)
    }

    /// The archive's named per-entry verification tokens.
    pub closed spec fn archive_tokens(self) -> Seq<Option<crate::credcache::VerificationToken>> {
        codec::entry_tokens(self.archive)
    }

    /// The archive's named decode outcomes, by index and password.
    pub closed spec fn archive_decrypts(self) -> Map<(int, Seq<u8>), RawEntry> {
        codec::decrypt_outcomes(self.archive)
    }

    pub open spec fn wf(self) -> bool {
        &&& self.engine_view().wf()
        &&& self.engine_view().entry_limit() == self.archive_entries().len()
    }

    pub open spec fn in_phase(self) -> EnginePhase {
        self.engine_view().in_phase()
    }

    pub open spec fn tree_model(self) -> PrefixTree {
        self.engine_view().tree_model()
    }

    /// Parse the archive held in `bytes` and prepare a walk over its
    /// entries.  Whether the bytes parse is a function of them alone: exactly
    /// the parseable byte sequences yield a run, whose entry count is the
    /// parse's; anything else is the codec's structural failure.
    pub fn open(bytes: Vec<u8>) -> (r: Result<ExtractionRun, AppError>)
        ensures
            (r is Ok) == (codec::zip_parse(bytes@) is Some),
            r matches Ok(run) ==> {
                &&& run.wf()
                &&& run.in_phase() is Scanning
                &&& run.engine_view().cursor() == 0
                &&& run.engine_view().cred_model() == Map::<
                    crate::credcache::VerificationToken,
                    Seq<u8>,
                >::empty()
                &&& forall|p: Seq<Seq<char>>| run.tree_model().contains_path(p) == (p.len() == 0)
                &&& codec::zip_parse(bytes@) == Some(run.archive_entries())
                &&& run.engine_view().entry_limit() == run.archive_entries().len()
            },
            r matches Err(e) ==> e is FailedUnzip,
    {
        match codec::open_archive(bytes) {
            Ok(archive) => {
                let total = codec::archive_len(&archive);
                Ok(ExtractionRun { archive, engine: Engine::start(total) })
            },
            Err(message) => Err(AppError::FailedUnzip(message)),
        }
    }

    pub fn phase(&self) -> (p: EnginePhase)
        ensures
            p == self.in_phase(),
    {
        self.engine.current_phase()
    }

    pub fn position(&self) -> (n: usize)
        ensures
            n as int == self.engine_view().cursor(),
    {
        self.engine.position()
    }

    pub fn entries_total(&self) -> (n: usize)
        ensures
            n as int == self.engine_view().entry_limit(),
    {
        self.engine.entries_total()
    }

    /// Process the next entry of a scanning walk: read it through the codec
    /// and let the engine decide; a cached password is applied on the spot.
    /// At the end of the archive the walk completes; otherwise the step is
    /// the one the named outcome of the entry at the cursor calls for.
    pub fn advance(&mut self) -> (step: Step)
        requires
            old(self).wf(),
            old(self).in_phase() is Scanning,
        ensures
            final(self).wf(),
            walk_step_ok(old(self).engine_view(), final(self).engine_view(), step),
            !(step is Cancelled),
            final(self).archive_entries() == old(self).archive_entries(),
            final(self).archive_tokens() == old(self).archive_tokens(),
            final(self).archive_decrypts() == old(self).archive_decrypts(),
            final(self).engine_view().cred_model() == old(self).engine_view().cred_model(),
            old(self).engine_view().cursor() == old(self).engine_view().entry_limit() ==> step
                is Done,
            old(self).engine_view().cursor() < old(self).engine_view().entry_limit()
                ==> entry_decides_step(*old(self), step),
    {
        if self.engine.position() == self.engine.entries_total() {
            return self.engine.finish();
        }
        let pos = self.engine.position();
        let raw = codec::read_entry(&mut self.archive, pos);
        match raw {
            RawEntry::Opened { name, size } => self.engine.on_read(
                EntryOutcome::Readable { name, size },
            ),
            RawEntry::Failed { message } => self.engine.on_read(
                EntryOutcome::Unreadable { message },
            ),
            RawEntry::NeedsPassword => {
                let token = codec::entry_token(&mut self.archive, pos);
                let step = self.engine.on_read(EntryOutcome::PasswordRequired { token });
                match step {
                    Step::Decrypt { password } => self.decrypt_current(password),
                    other => other,
                }
            },
        }
    }

    /// Attempt the outstanding decode of the current entry with `password`.
    fn decrypt_current(&mut self, password: Vec<u8>) -> (step: Step)
        requires
            old(self).wf(),
            old(self).in_phase() is Decrypting,
        ensures
            final(self).wf(),
            walk_step_ok(old(self).engine_view(), final(self).engine_view(), step),
            !(step is Cancelled),
            !(step is AskCredential),
            !(step is Done),
            final(self).archive_entries() == old(self).archive_entries(),
            final(self).archive_tokens() == old(self).archive_tokens(),
            final(self).archive_decrypts() == old(self).archive_decrypts(),
            final(self).engine_view().cred_model() == old(self).engine_view().cred_model(),
            decrypt_decides_step(
                *old(self),
                old(self).engine_view().cursor(),
                password@,
                step,
            ),
    {
        let pos = self.engine.position();
        let raw = codec::decrypt_entry(&mut self.archive, pos, &password);
        match raw {
            RawEntry::Opened { name, size } => self.engine.on_read(
                EntryOutcome::Readable { name, size },
            ),
            RawEntry::Failed { message } => self.engine.on_read(
                EntryOutcome::Unreadable { message: "failed to decrypt/unzip file".to_owned() },
            ),
            RawEntry::NeedsPassword => self.engine.on_read(
                EntryOutcome::Unreadable { message: "failed to decrypt/unzip file".to_owned() },
            ),
        }
    }

    /// Report what the suspension point produced for a suspended walk: the
    /// supplied credential is cached under the awaited token and tried on the
    /// current entry; cancellation or a closed channel aborts the walk.
    pub fn submit(&mut self, w: WaitOutcome) -> (step: Step)
        requires
            old(self).wf(),
            old(self).in_phase() is AwaitingCredential,
        ensures
            final(self).wf(),
            walk_step_ok(old(self).engine_view(), final(self).engine_view(), step),
            !(step is AskCredential),
            !(step is Done),
            final(self).archive_entries() == old(self).archive_entries(),
            final(self).archive_tokens() == old(self).archive_tokens(),
            final(self).archive_decrypts() == old(self).archive_decrypts(),
            old(self).in_phase() matches EnginePhase::AwaitingCredential { token } ==> ({
                let s0 = old(self).engine_view();
                let s1 = final(self).engine_view();
                &&& (w matches WaitOutcome::Credential { password } ==> s1.cred_model()
                    == s0.cred_model().insert(token, password@) && decrypt_decides_step(
                    *old(self),
                    s0.cursor(),
                    password@,
                    step,
                ))
                &&& (w is CancelSignal ==> step is Cancelled && s1.cred_model() == s0.cred_model())
                &&& (w is ChannelClosed ==> (step matches Step::Fail { error }
                    && error is PasswordFail && s1.cred_model() == s0.cred_model()))
            }),
    {
        let step = self.engine.on_wait(w);
        match step {
            Step::Decrypt { password } => self.decrypt_current(password),
            other => other,
        }
    }

    /// The tree of validated paths, surrendered to the caller.
    pub fn into_tree(self) -> (t: PrefixTree)
        ensures
            t == self.tree_model(),
    {
        self.engine.into_tree()
    }
}

} // verus!
