//! Tasks: the owning, completion-tracking wrappers around computations.
//!
//! Spurious wake-ups are allowed, even after a computation has reported
//! ready; advancing a computation that has already reported ready is not.
//! `TaskFuture` therefore records the result of the latest advance and only
//! advances the computation again while that result is still pending, so a
//! redundant wake can never cause a double advance.

use vstd::prelude::*;

use crate::handle::WakeHandle;
use crate::job::{advance_rel, Job};
use crate::timer::{Advance, WaiterRequest};

verus! {

/// A computation and the result of the latest advance: `done` records
/// whether it has produced its final value.
#[derive(Clone, Copy, Debug)]
pub struct TaskFuture {
    /// The owned computation.
    pub job: Job,
    /// True once the computation has reported ready; it is never advanced
    /// again afterwards.
    pub done: bool,
}

impl TaskFuture {
    pub open spec fn wf(&self) -> bool {
        self.job.wf()
    }

    /// Wrap a computation that has not yet been advanced to completion.
    pub fn new(job: Job) -> (t: TaskFuture)
        ensures
            t.job == job,
            !t.done,
    {
        TaskFuture { job, done: false }
    }

    /// Advance the owned computation once, unless it has already completed:
    /// a poll of a completed task is a spurious wake and is absorbed without
    /// touching the computation.
    pub fn poll(&mut self, now: u64, handle: WakeHandle) -> (r: Option<WaiterRequest>)
        requires
            old(self).wf(),
        ensures
            final(self).wf(),
            old(self).done ==> *final(self) == *old(self) && r is None,
            !old(self).done ==> advance_rel(
                old(self).job,
                final(self).job,
                now,
                handle,
                final(self).done,
                r,
            ),
    {
        if self.done {
            return None;
        }
        let (a, w) = self.job.advance(now, handle);
        match a {
            Advance::Ready => {
                self.done = true;
            }
            Advance::Pending => {
            }
        }
        w
    }
}

/// A task known to the scheduler: one computation plus its completion state,
/// bound to a slot of the scheduler's task table.
#[derive(Clone, Copy, Debug)]
pub struct Task {
    /// The guarded computation.
    pub task_future: TaskFuture,
    /// The slot in the scheduler's task table; every wake handle minted
    /// while the scheduler advances the task names this slot.
    pub id: usize,
}

impl Task {
    pub open spec fn wf(&self) -> bool {
        self.task_future.wf()
    }

    /// True once the owned computation has produced its final value.
    pub open spec fn done(&self) -> bool {
        self.task_future.done
    }

    /// Progress still owed: zero once complete, and at least one while
    /// live, since completing is itself a step.
    pub open spec fn measure(&self) -> nat {
        if self.done() {
            0
        } else {
            self.task_future.job.measure() + 1
        }
    }

    /// The deadline the task's computation currently waits on.
    pub open spec fn horizon(&self) -> u64 {
        self.task_future.job.horizon()
    }

    /// The wake handle the task's background waiter would invoke.
    pub open spec fn target(&self) -> Option<WakeHandle> {
        self.task_future.job.target()
    }

    /// Wrap `job` as the task in slot `id`.
    pub fn new(job: Job, id: usize) -> (t: Task)
        ensures
            t == (Task { task_future: TaskFuture { job, done: false }, id }),
    {
        Task { task_future: TaskFuture::new(job), id }
    }

    /// Advance the owned computation once at clock reading `now`, under a
    /// fresh wake handle naming the task's own slot.
    pub fn poll(&mut self, now: u64) -> (r: Option<WaiterRequest>)
        requires
            old(self).wf(),
        ensures
            final(self).wf(),
            final(self).id == old(self).id,
            old(self).done() ==> *final(self) == *old(self) && r is None,
            !old(self).done() ==> advance_rel(
                old(self).task_future.job,
                final(self).task_future.job,
                now,
                (WakeHandle { task: old(self).id }),
                final(self).done(),
                r,
            ),
    {
        let handle = WakeHandle { task: self.id };
        self.task_future.poll(now, handle)
    }

    /// True once the owned computation has produced its final value.
    pub fn is_done(&self) -> (r: bool)
        ensures
            r == self.done(),
    {
        self.task_future.done
    }

    /// The deadline the task's computation currently waits on.
    pub fn deadline(&self) -> (r: u64)
        ensures
            r == self.horizon(),
    {
        match &self.task_future.job {
            Job::Timer(d) => d.when,
            Job::Ticks(t) => t.stream.delay.when,
        }
    }

    /// The wake handle the task's background waiter would invoke, if one is
    /// registered.
    pub fn current_target(&self) -> (r: Option<WakeHandle>)
        ensures
            r == self.target(),
    {
        match &self.task_future.job {
            Job::Timer(d) => d.waker,
            Job::Ticks(t) => t.stream.delay.waker,
        }
    }
}

} // verus!
