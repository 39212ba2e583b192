//! Wake handles: the capability that re-schedules a suspended task.
//!
//! A `WakeHandle` is bound to one task of the scheduler by the task's index.
//! Invoking it (see `MiniTokio::wake`) enqueues that task on the ready-queue
//! unconditionally; redundant invocations are legal and are absorbed when the
//! scheduler later pops a task that is already complete.

use vstd::prelude::*;

verus! {

/// A capability that, when invoked, re-schedules the task it is bound to.
///
/// Many handles may exist for one task; two handles wake the same task
/// exactly when their `task` indices are equal.
#[derive(Clone, Copy, Debug, PartialEq, Eq, Structural)]
pub struct WakeHandle {
    /// Index of the task this handle is bound to.
    pub task: usize,
}

impl WakeHandle {
    /// True when `self` and `other` would wake the same task. A suspending
    /// computation uses this to detect that its stored handle has gone stale.
    pub fn will_wake(&self, other: &WakeHandle) -> (r: bool)
        ensures
            r == (self.task == other.task),
    {
        self.task == other.task
    }
}

/// Mint a wake handle bound to the task with index `task`.
pub fn get_waker(task: usize) -> (h: WakeHandle)
    ensures
        h.task == task,
{
    WakeHandle { task }
}

} // verus!
