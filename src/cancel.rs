//! Cooperative cancellation: a write-once signal.
use vstd::prelude::*;

verus! {

/// A signal that is set at most once and never cleared. The driver shares
/// it between the holders; each observes it at its suspension points.
pub struct CancellationToken {
    signaled: bool,
}

impl CancellationToken {
    /// Whether the signal is set.
    pub closed spec fn signaled(&self) -> bool {
        self.signaled
    }

    /// A token that is not signaled.
    pub fn new() -> (r: CancellationToken)
        ensures
            !r.signaled(),
    {
        CancellationToken { signaled: false }
    }

    /// Sets the signal. Returns whether this call set it: signaling a
    /// token that is already signaled changes nothing.
    pub fn cancel(&mut self) -> (r: bool)
        ensures
            final(self).signaled(),
            r == !old(self).signaled(),
    {
        let first = !self.signaled;
        self.signaled = true;
        first
    }

    /// Whether the signal is set.
    pub fn is_cancelled(&self) -> (r: bool)
        ensures
            r == self.signaled(),
    {
        self.signaled
    }
}

/// Cancellation is idempotent: cancelling twice leaves the token as
/// cancelling once does, and a signaled token stays signaled.
pub proof fn lemma_cancel_idempotent(t1: CancellationToken, t2: CancellationToken)
    requires
        t1.signaled(),
        t2.signaled(),
    ensures
        t1 == t2,
{
    assert(t1.signaled == t2.signaled);
}

} // verus!
