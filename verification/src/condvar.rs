//! The condition-variable core: the wake/wait bookkeeping that decides
//! when a blocked task resumes.  The caller owns the actual task
//! handle and performs the wake exactly when told to; every decision
//! about when that happens is made here.

use vstd::prelude::*;

verus! {

/// Condition variable which allows a task to block until woken up.
#[derive(Clone, Copy, PartialEq, Eq, Debug)]
pub struct CondVar {
    /// A notification has arrived and has not been reset.
    pub awake: bool,
    /// A waiting task has registered itself and was not yet woken.
    pub waiting: bool,
}

impl CondVar {
    /// A fresh condition variable: not notified, nobody waiting.
    pub fn new() -> (r: CondVar)
        ensures
            !r.awake,
            !r.waiting,
    {
        CondVar { awake: false, waiting: false }
    }

    /// Wakes up the waiting task: the caller must wake the registered
    /// task exactly when the result says one was waiting.  Subsequent
    /// calls do nothing until the wait is polled again.
    pub fn notify(&mut self) -> (wake: bool)
        ensures
            final(self).awake,
            !final(self).waiting,
            wake == old(self).waiting,
    {
        let wake = self.waiting;
        self.awake = true;
        self.waiting = false;
        wake
    }

    /// Begins a wait for a notification.  The wait catches a
    /// notification that arrived before it started: its first poll is
    /// ready exactly when the variable is already awake.
    pub fn wait(&self) -> (w: CondVarWait) {
        CondVarWait {  }
    }

    /// Resets the condition variable ready to `wait` again.  Kept
    /// separate from `wait` so that the first wait of a loop still
    /// catches notifications sent before it started.
    pub fn reset(&mut self)
        ensures
            !final(self).awake,
            final(self).waiting == old(self).waiting,
    {
        self.awake = false;
    }
}

impl Default for CondVar {
    /// Same as `CondVar::new`.
    fn default() -> (r: CondVar)
        ensures
            !r.awake,
            !r.waiting,
    {
        CondVar::new()
    }
}

/// One pending wait produced by [`CondVar::wait`].
#[derive(Clone, Copy, PartialEq, Eq, Debug)]
pub struct CondVarWait {}

impl CondVarWait {
    /// One poll of the wait: registers the waiting task, and reports
    /// whether the wait is over, which is exactly when a notification
    /// has arrived.
    pub fn poll(&self, cv: &mut CondVar) -> (ready: bool)
        ensures
            final(cv).waiting,
            final(cv).awake == old(cv).awake,
            ready == old(cv).awake,
    {
        cv.waiting = true;
        cv.awake
    }
}

} // verus!
