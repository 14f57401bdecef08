//! The keep-alive discipline of a callable that worker threads may invoke.
use crate::status::Status;
use vstd::prelude::*;

verus! {

/// The handles on one thread-safe callable, shared by all its clones.
///
/// Creating it acquires the callable from the host, which keeps the host's
/// event loop running; dropping the last handle releases it, exactly once.
pub struct ThreadSafeState {
    /// Live handles: the first one and every clone not dropped yet.
    pub handles: u64,
    /// Whether the host still holds the acquisition.
    pub acquired: bool,
}

impl ThreadSafeState {
    pub open spec fn wf(&self) -> bool {
        self.acquired <==> self.handles > 0
    }

    /// Whether the host's event loop may exit as far as this callable goes.
    pub open spec fn may_exit_spec(&self) -> bool {
        !self.acquired
    }

    /// The first handle on a callable, given the status code with which the
    /// host answered the acquisition: a handle exists only when the host
    /// acquired it, and then it is the only one.
    pub fn new(acquire_status: u32) -> (r: Result<ThreadSafeState, Status>)
        ensures
            acquire_status == 0 ==> (r matches Ok(s) && s.wf() && s.handles == 1 && s.acquired),
            acquire_status != 0 ==> r == Err::<ThreadSafeState, Status>(Status::from_code_spec(acquire_status)),
    {
        match Status::result(acquire_status) {
            Ok(()) => Ok(ThreadSafeState::acquire()),
            Err(e) => Err(e),
        }
    }

    /// Acquires the callable: one live handle.
    pub fn acquire() -> (r: ThreadSafeState)
        ensures
            r.wf(),
            r.handles == 1,
            r.acquired,
    {
        ThreadSafeState { handles: 1, acquired: true }
    }

    /// One more handle, as a clone of a live one.
    pub fn clone_handle(&mut self)
        requires
            old(self).wf(),
            old(self).handles > 0,
            old(self).handles < u64::MAX,
        ensures
            final(self).wf(),
            final(self).handles == old(self).handles + 1,
            final(self).acquired,
    {
        self.handles = self.handles + 1;
    }

    /// Drops one handle; dropping the last one releases the callable.
    /// Returns whether this drop released it.
    pub fn drop_handle(&mut self) -> (released: bool)
        requires
            old(self).wf(),
            old(self).handles > 0,
        ensures
            final(self).wf(),
            final(self).handles == old(self).handles - 1,
            *final(self) == after_drops(*old(self), 1),
            released == (old(self).handles == 1),
    {
        self.handles = self.handles - 1;
        if self.handles == 0 {
            self.acquired = false;
            true
        } else {
            false
        }
    }

    pub fn may_exit(&self) -> (r: bool)
        ensures
            r == self.may_exit_spec(),
    {
        !self.acquired
    }
}

/// The state after `k` handles are dropped.
pub open spec fn after_drops(s: ThreadSafeState, k: nat) -> ThreadSafeState {
    ThreadSafeState { handles: (s.handles - k) as u64, acquired: s.handles - k > 0 }
}

/// While any handle on an acquired callable is live, the event loop does
/// not exit; once the last of them is dropped, it may.
pub proof fn lemma_liveness(s: ThreadSafeState, k: nat)
    requires
        s.wf(),
        k <= s.handles,
    ensures
        after_drops(s, k).wf(),
        after_drops(s, k).may_exit_spec() <==> k == s.handles,
        k < s.handles ==> after_drops(after_drops(s, k), 1) == after_drops(s, k + 1),
{
}

} // verus!
