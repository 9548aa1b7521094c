use vstd::prelude::*;

verus! {

/// A single-slot, pre-armable cancellation signal.
///
/// An external cancel request raises the signal; the extraction walk
/// consumes it at its single suspension point.  A signal that is still pending when a
/// run ends becomes *stale*, and the drain performed at the start of the next
/// run discards stale signals only: a cancel armed after the previous run
/// ended (or before any run) survives the drain and aborts the first wait of
/// the coming run, while a leftover click from an already-finished run cannot
/// silently cancel the next one.
pub struct CancellationGate {
    pending: bool,
    stale: bool,
}

impl CancellationGate {
    /// Whether a cancel signal is pending.
    pub closed spec fn is_armed(&self) -> bool {
        self.pending
    }

    /// Whether the pending signal is left over from an already-finished run.
    pub closed spec fn is_stale(&self) -> bool {
        self.stale
    }

    /// A gate is well formed when only a pending signal can be stale.
    pub open spec fn wf(&self) -> bool {
        self.is_stale() ==> self.is_armed()
    }

    pub fn new() -> (g: Self)
        ensures
            !g.is_armed(),
            !g.is_stale(),
            g.wf(),
    {
        CancellationGate { pending: false, stale: false }
    }

    /// Raise the signal.  Idempotent: a second request while a signal is
    /// pending succeeds without queueing anything further.
    pub fn arm(&mut self)
        ensures
            final(self).is_armed(),
            !final(self).is_stale(),
            final(self).wf(),
    {
        self.pending = true;
        self.stale = false;
    }

    /// Called once at the very start of every run: discards a signal left
    /// over from a prior, already-finished run and keeps a fresh one.
    pub fn drain_stale(&mut self)
        ensures
            final(self).is_armed() == (old(self).is_armed() && !old(self).is_stale()),
            !final(self).is_stale(),
            final(self).wf(),
    {
        if self.stale {
            self.pending = false;
        }
        self.stale = false;
    }

    /// Consume the pending signal at the suspension point; reports whether
    /// one was pending.
    pub fn take(&mut self) -> (r: bool)
        ensures
            r == old(self).is_armed(),
            !final(self).is_armed(),
            !final(self).is_stale(),
            final(self).wf(),
    {
        let r = self.pending;
        self.pending = false;
        self.stale = false;
        r
    }

    /// Mark the end of a run: a signal still pending was aimed at the run
    /// that just ended and becomes stale.
    pub fn finish_run(&mut self)
        requires
            old(self).wf(),
        ensures
            final(self).is_armed() == old(self).is_armed(),
            final(self).is_stale() == old(self).is_armed(),
            final(self).wf(),
    {
        if self.pending {
            self.stale = true;
        } else {
            self.stale = false;
        }
    }
}

/// Law (cancellation precedence): a signal armed before a run starts survives
/// the run's initial stale-signal drain, so the first wait of that run
/// consumes it and resolves to cancellation instead of waiting.
///
/// The parameters follow a single gate through the sequence of calls
/// `arm`, `drain_stale`, `take`: each `requires` clause restates what the
/// matching call ensures, with `g0` holding before the first call and `g1`,
/// `g2`, `g3` after each call in turn.
pub proof fn law_cancellation_precedence(
    g0: CancellationGate,
    g1: CancellationGate,
    g2: CancellationGate,
    g3: CancellationGate,
    taken: bool,
)
    requires
        g1.is_armed() && !g1.is_stale(),
        g2.is_armed() == (g1.is_armed() && !g1.is_stale()) && !g2.is_stale(),
        taken == g2.is_armed() && !g3.is_armed(),
    ensures
        taken,
{
}

/// Law (stale-cancel isolation): a signal that is still pending when a run
/// ends is discarded by the next run's drain, so the next run's first wait
/// does not observe it.
///
/// The parameters trace one gate through `arm(); finish_run(); drain_stale();
/// take()`: each `requires` clause is the `ensures` of the corresponding
/// call.
pub proof fn law_stale_cancel_isolation(
    g1: CancellationGate,
    g2: CancellationGate,
    g3: CancellationGate,
    g4: CancellationGate,
    taken: bool,
)
    requires
        g1.is_armed() && !g1.is_stale(),
        g2.is_armed() == g1.is_armed() && g2.is_stale() == g1.is_armed(),
        g3.is_armed() == (g2.is_armed() && !g2.is_stale()) && !g3.is_stale(),
        taken == g3.is_armed() && !g4.is_armed(),
    ensures
        !taken,
{
}

} // verus!
