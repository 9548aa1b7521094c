use crate::credcache::{CredentialCache, VerificationToken};
use crate::error::AppError;
use crate::pathguard;
use crate::pathguard::PathCheck;
use crate::prefixtree::{is_prefix_of, PrefixTree};
use crate::views_of;
use vstd::prelude::*;

verus! {

/// What the archive codec reported for one entry access.
pub enum EntryOutcome {
    /// The entry opened; its raw stored name and uncompressed size.
    Readable { name: String, size: u64 },
    /// The entry is encrypted and the access carried no password; `token`
    /// holds the password-verification bytes when the encryption scheme
    /// provides them.
    PasswordRequired { token: Option<VerificationToken> },
    /// The access failed for a reason other than a missing password.
    Unreadable { message: String },
}

/// What the suspension point produced.
pub enum WaitOutcome {
    /// The external actor supplied a password.
    Credential { password: Vec<u8> },
    /// The cancellation signal fired first.
    CancelSignal,
    /// The credential channel is closed; no password will ever arrive.
    ChannelClosed,
}

/// The credential-negotiation state of a walk.
#[derive(Debug, Clone, Copy, PartialEq, Eq, Structural)]
pub enum EnginePhase {
    /// Walking entries in the archive's native order.
    Scanning,
    /// A decode of the current entry with a known password is outstanding.
    Decrypting { token: VerificationToken },
    /// Suspended: a credential request was emitted for the current entry and
    /// the engine races the credential channel against cancellation.
    AwaitingCredential { token: VerificationToken },
    /// Every entry was processed.
    Finished,
    /// The walk was cancelled at the suspension point.
    Cancelled,
    /// The walk aborted.
    Failed,
}

/// What the caller performs next on behalf of the engine.
pub enum Step {
    /// An entry was validated and recorded: emit a structural notification
    /// with this payload, then keep walking.
    Notify { components: Vec<String>, path: String, depth: u32, size: u32 },
    /// The entry's name escapes the extraction root: it was skipped, never
    /// recorded; log the raw name and keep walking.
    Skipped { name: String },
    /// The entry names the extraction root itself: silently keep walking.
    Ignored,
    /// Emit a credential request, then wait at the suspension point.
    AskCredential,
    /// Attempt to decode the current entry with this password.
    Decrypt { password: Vec<u8> },
    /// Every entry was processed; the tree is complete.
    Done,
    /// The walk was cancelled; the recency history must not be touched.
    Cancelled,
    /// The walk aborted with this error; the recency history must not be
    /// touched.
    Fail { error: AppError },
}

/// Whether a `Notify` payload correctly describes the entry `name` of
/// uncompressed size `size`: the components are the entry's normalized safe
/// path, the displayable path joins them, the depth is the component count,
/// and the size is the entry's.
pub open spec fn notify_matches(
    components: Seq<String>,
    path: Seq<char>,
    depth: u32,
    size_field: u32,
    name: Seq<char>,
    size: u64,
) -> bool {
    &&& pathguard::path_model(name) == Some(views_of(components))
    &&& path == pathguard::joined(views_of(components))
    &&& depth == views_of(components).len() as u32
    &&& size_field == size as u32
}

/// What a returned step says about the engine around it, indexed by the step
/// itself: a `Notify` payload describes a nonempty validated path whose
/// prefixes are exactly what the tree gained; a `Skipped` name provably
/// escapes the extraction root and the tree is untouched; a credential
/// request or an outstanding decode leaves the cursor in place; and
/// completion, cancellation and failure leave the tree as it was.
pub open spec fn step_reflects(s0: Engine, s1: Engine, step: Step) -> bool {
    &&& s1.entry_limit() == s0.entry_limit()
    &&& (step matches Step::Notify { components, path, depth, size } ==> {
        &&& views_of(components@).len() > 0
        &&& path@ == pathguard::joined(views_of(components@))
        &&& depth == (views_of(components@).len() as u32)
        &&& s1.in_phase() is Scanning
        &&& s1.cursor() == s0.cursor() + 1
        &&& forall|p: Seq<Seq<char>>|
            s1.tree_model().contains_path(p) == (s0.tree_model().contains_path(p) || is_prefix_of(
                p,
                views_of(components@),
            ))
    })
    &&& (step matches Step::Skipped { name } ==> s1.in_phase() is Scanning && s1.tree_model()
        == s0.tree_model() && s1.cursor() == s0.cursor() + 1 && pathguard::path_model(name@)
        is None)
    &&& (step is Ignored ==> s1.in_phase() is Scanning && s1.tree_model() == s0.tree_model()
        && s1.cursor() == s0.cursor() + 1)
    &&& (step is AskCredential ==> s1.in_phase() is AwaitingCredential && s1.tree_model()
        == s0.tree_model() && s1.cursor() == s0.cursor())
    &&& (step matches Step::Decrypt { password } ==> s1.in_phase() is Decrypting && s1.tree_model()
        == s0.tree_model() && s1.cursor() == s0.cursor())
    &&& (step is Done ==> s1.in_phase() is Finished && s1.tree_model() == s0.tree_model())
    &&& (step is Cancelled ==> s1.in_phase() is Cancelled && s1.tree_model() == s0.tree_model())
    &&& (step matches Step::Fail { error } ==> s1.in_phase() is Failed && s1.tree_model()
        == s0.tree_model())
}

/// The extraction engine's credential-negotiation state machine.
///
/// The engine owns the walk's decisions: what a given codec outcome means,
/// when a credential request is owed, how a supplied password is cached and
/// reused, and which entries reach the tree.  The caller performs the outside
/// work each returned [`Step`] names and reports what came of it.
pub struct Engine {
    phase: EnginePhase,
    pos: usize,
    total: usize,
    tree: PrefixTree,
    cache: CredentialCache,
}

impl Engine {
    /// The current negotiation phase.
    pub closed spec fn in_phase(self) -> EnginePhase {
        self.phase
    }

    /// The index of the entry the walk is at.
    pub closed spec fn cursor(self) -> int {
        self.pos as int
    }

    /// The number of entries in the archive.
    pub closed spec fn entry_limit(self) -> int {
        self.total as int
    }

    /// The tree of validated paths recorded so far.
    pub closed spec fn tree_model(self) -> PrefixTree {
        self.tree
    }

    /// The passwords learned so far in this run, by verification token.
    pub closed spec fn cred_model(self) -> Map<VerificationToken, Seq<u8>> {
        self.cache@
    }

    pub open spec fn wf(self) -> bool {
        &&& 0 <= self.cursor() <= self.entry_limit()
        &&& self.cache_wf()
        &&& (self.in_phase() matches EnginePhase::AwaitingCredential { token }
            ==> !self.cred_model().contains_key(token) && self.cursor() < self.entry_limit())
        &&& (self.in_phase() is Decrypting ==> self.cursor() < self.entry_limit())
    }

    /// The credential cache's own well-formedness.
    pub closed spec fn cache_wf(self) -> bool {
        self.cache.wf()
    }

    /// A fresh engine for an archive of `total` entries.
    pub fn start(total: usize) -> (e: Engine)
        ensures
            e.wf(),
            e.in_phase() is Scanning,
            e.cursor() == 0,
            e.entry_limit() == total as int,
            e.cred_model() == Map::<VerificationToken, Seq<u8>>::empty(),
            forall|p: Seq<Seq<char>>| e.tree_model().contains_path(p) == (p.len() == 0),
    {
        Engine {
            phase: EnginePhase::Scanning,
            pos: 0,
            total,
            tree: PrefixTree::new(),
            cache: CredentialCache::new(),
        }
    }

    pub fn position(&self) -> (n: usize)
        ensures
            n as int == self.cursor(),
    {
        self.pos
    }

    pub fn entries_total(&self) -> (n: usize)
        ensures
            n as int == self.entry_limit(),
    {
        self.total
    }

    pub fn current_phase(&self) -> (p: EnginePhase)
        ensures
            p == self.in_phase(),
    {
        self.phase
    }

    /// The tree of validated paths, surrendered to the caller.
    pub fn into_tree(self) -> (t: PrefixTree)
        ensures
            t == self.tree_model(),
    {
        self.tree
    }

    /// Digest the codec's outcome for the entry at the cursor.
    ///
    /// While scanning, a readable entry goes through the path guard: a safe
    /// path is recorded in the tree and announced, a root-resolving name is
    /// silently ignored, an escaping name is skipped and never surfaces.  An
    /// encrypted entry consults the credential cache: a request is emitted
    /// exactly when its token is absent, so a password learned once serves
    /// every later entry with the same token.  While a decode with a known
    /// password is outstanding, a readable entry is recorded the same way and
    /// any failure aborts the walk.
    pub fn on_read(&mut self, outcome: EntryOutcome) -> (step: Step)
        requires
            old(self).wf(),
            old(self).in_phase() is Scanning || old(self).in_phase() is Decrypting,
            old(self).cursor() < old(self).entry_limit(),
        ensures
            final(self).wf(),
            step_reflects(*old(self), *final(self), step),
            final(self).entry_limit() == old(self).entry_limit(),
            final(self).cred_model() == old(self).cred_model(),
            outcome matches EntryOutcome::Readable { name, size } ==> ({
                let s0 = *old(self);
                let s1 = *final(self);
                let pm = pathguard::path_model(name@);
                &&& s1.cursor() == s0.cursor() + 1
                &&& s1.in_phase() is Scanning
                &&& (pm is None ==> (step matches Step::Skipped { name: sn } && sn@ == name@
                    && s1.tree_model() == s0.tree_model()))
                &&& (pm matches Some(c) ==> {
                    &&& (c.len() == 0 ==> step is Ignored && s1.tree_model() == s0.tree_model())
                    &&& (c.len() > 0 ==> (step matches Step::Notify {
                        components,
                        path,
                        depth,
                        size: size_field,
                    } && {
                        &&& notify_matches(components@, path@, depth, size_field, name@, size)
                        &&& forall|p: Seq<Seq<char>>|
                            s1.tree_model().contains_path(p) == (s0.tree_model().contains_path(p)
                                || is_prefix_of(p, c))
                    }))
                })
            }),
            outcome matches EntryOutcome::PasswordRequired { token } ==> ({
                let s0 = *old(self);
                let s1 = *final(self);
                &&& s1.tree_model() == s0.tree_model()
                &&& (s0.in_phase() is Scanning ==> {
                    &&& (token is None ==> (step matches Step::Fail { error }
                        && error matches AppError::FailedUnzip(m)
                        && m@ == "unable to get password, should be unreachable"@
                        && s1.in_phase() is Failed))
                    &&& (token matches Some(t) ==> {
                        &&& (s0.cred_model().contains_key(t) ==> (step matches Step::Decrypt {
                            password,
                        } && password@ == s0.cred_model()[t] && s1.in_phase()
                            == (EnginePhase::Decrypting { token: t }) && s1.cursor()
                            == s0.cursor()))
                        &&& (!s0.cred_model().contains_key(t) ==> (step is AskCredential
                            && s1.in_phase() == (EnginePhase::AwaitingCredential { token: t })
                            && s1.cursor() == s0.cursor()))
                    })
                })
                &&& (s0.in_phase() is Decrypting ==> (step matches Step::Fail { error }
                    && error is FailedUnzip && s1.in_phase() is Failed))
            }),
            outcome matches EntryOutcome::Unreadable { message } ==> ({
                let s0 = *old(self);
                let s1 = *final(self);
                &&& s1.tree_model() == s0.tree_model()
                &&& s1.in_phase() is Failed
                &&& (step matches Step::Fail { error } && error matches AppError::FailedUnzip(m)
                    && (s0.in_phase() is Scanning ==> m@ == message@)
                    && (s0.in_phase() is Decrypting ==> m@ == "failed to decrypt/unzip file"@))
            }),
    {
        match outcome {
            EntryOutcome::Readable { name, size } => {
                self.phase = EnginePhase::Scanning;
                self.pos = self.pos + 1;
                match pathguard::validate(name.as_str()) {
                    PathCheck::Safe(v) => {
                        self.tree.insert(&v.components);
                        let path = pathguard::join_components(&v.components);
                        let dcount = v.components.len();
                        let depth: u32 = #[verifier::truncate] (dcount as u32);
                        let size_field: u32 = #[verifier::truncate] (size as u32);
                        Step::Notify { components: v.components, path, depth, size: size_field }
                    },
                    PathCheck::RootDepthZero => Step::Ignored,
                    PathCheck::Escape => Step::Skipped { name },
                }
            },
            EntryOutcome::PasswordRequired { token } => {
                match self.phase {
                    EnginePhase::Decrypting { token: _t } => {
                        self.phase = EnginePhase::Failed;
                        Step::Fail {
                            error: AppError::FailedUnzip("failed to decrypt/unzip file".to_owned()),
                        }
                    },
                    _ => {
                        match token {
                            None => {
                                self.phase = EnginePhase::Failed;
                                Step::Fail {
                                    error: AppError::FailedUnzip(
                                        "unable to get password, should be unreachable".to_owned(),
                                    ),
                                }
                            },
                            Some(t) => {
                                match self.cache.lookup(t) {
                                    Some(password) => {
                                        self.phase = EnginePhase::Decrypting { token: t };
                                        Step::Decrypt { password }
                                    },
                                    None => {
                                        self.phase = EnginePhase::AwaitingCredential { token: t };
                                        Step::AskCredential
                                    },
                                }
                            },
                        }
                    },
                }
            },
            EntryOutcome::Unreadable { message } => {
                let was = self.phase;
                self.phase = EnginePhase::Failed;
                match was {
                    EnginePhase::Scanning => Step::Fail { error: AppError::FailedUnzip(message) },
                    _ => Step::Fail {
                        error: AppError::FailedUnzip("failed to decrypt/unzip file".to_owned()),
                    },
                }
            },
        }
    }

    /// Digest what the suspension point produced.
    ///
    /// A credential is cached under the awaited token, so no later entry with
    /// this token re-prompts, and a decode is attempted; a cancellation
    /// signal or a closed channel aborts the walk with nothing recorded.
    pub fn on_wait(&mut self, w: WaitOutcome) -> (step: Step)
        requires
            old(self).wf(),
            old(self).in_phase() is AwaitingCredential,
        ensures
            final(self).wf(),
            step_reflects(*old(self), *final(self), step),
            final(self).entry_limit() == old(self).entry_limit(),
            final(self).cursor() == old(self).cursor(),
            final(self).tree_model() == old(self).tree_model(),
            old(self).in_phase() matches EnginePhase::AwaitingCredential { token } ==> ({
                let s0 = *old(self);
                let s1 = *final(self);
                &&& (w matches WaitOutcome::Credential { password } ==> (step
                    matches Step::Decrypt { password: handed } && handed@ == password@
                    && s1.cred_model() == s0.cred_model().insert(token, password@)
                    && s1.in_phase() == (EnginePhase::Decrypting { token })))
                &&& (w is CancelSignal ==> step is Cancelled && s1.in_phase() is Cancelled
                    && s1.cred_model() == s0.cred_model())
                &&& (w is ChannelClosed ==> (step matches Step::Fail { error }
                    && error is PasswordFail && s1.in_phase() is Failed && s1.cred_model()
                    == s0.cred_model()))
            }),
    {
        let t = match self.phase {
            EnginePhase::AwaitingCredential { token } => token,
            _ => {
                proof {
                    assert(false);
                }
                VerificationToken { b0: 0, b1: 0 }
            },
        };
        match w {
            WaitOutcome::Credential { password } => {
                let handed = password.clone();
                self.cache.store(t, password);
                self.phase = EnginePhase::Decrypting { token: t };
                Step::Decrypt { password: handed }
            },
            WaitOutcome::CancelSignal => {
                self.phase = EnginePhase::Cancelled;
                Step::Cancelled
            },
            WaitOutcome::ChannelClosed => {
                self.phase = EnginePhase::Failed;
                Step::Fail { error: AppError::PasswordFail }
            },
        }
    }

    /// Close a walk whose cursor has passed the last entry.
    pub fn finish(&mut self) -> (step: Step)
        requires
            old(self).wf(),
            old(self).in_phase() is Scanning,
            old(self).cursor() == old(self).entry_limit(),
        ensures
            final(self).wf(),
            step_reflects(*old(self), *final(self), step),
            final(self).in_phase() is Finished,
            final(self).tree_model() == old(self).tree_model(),
            final(self).cred_model() == old(self).cred_model(),
            final(self).entry_limit() == old(self).entry_limit(),
            final(self).cursor() == old(self).cursor(),
            step is Done,
    {
        self.phase = EnginePhase::Finished;
        Step::Done
    }
}

} // verus!
