//! A minimal cooperative task runtime, verified.
//!
//! The crate models the suspend/resume/wake contract of an asynchronous
//! executor from first principles: a pollable suspending computation, a
//! wake handle that re-schedules the task it is bound to, a one-shot timer
//! that delegates its wait to a background waiter, a bounded periodic tick
//! stream built by re-arming that timer, and a single-threaded scheduler
//! that drives tasks to completion over a FIFO ready-queue.
//!
//! Time is a monotonic clock reading in milliseconds (`u64`). The scheduler
//! itself never blocks: a computation that is not ready reports pending and
//! hands a `WaiterRequest` to whoever drives the loop, which performs the
//! actual wait and invokes the wake handle when the deadline has passed.

use vstd::prelude::*;

pub mod handle;
pub mod job;
pub mod main_future;
pub mod sched;
pub mod task;
pub mod ticks;
pub mod timer;

verus! {

use crate::job::Job;
use crate::sched::MiniTokio;

/// Create a scheduler, submit `job`, and drive it to completion, the clock
/// starting at `start`: the fire-and-forget entry point of the runtime.
/// Returns the scheduler and the clock reading at which the work was done:
/// exactly the computation's finish time, or `start` where that has already
/// passed — the run waits for every waiter and not a moment longer.
pub fn run(job: Job, start: u64) -> (r: (MiniTokio, u64))
    requires
        job.wf(),
    ensures
        r.0.wf(),
        r.0.queue@.len() == 0,
        r.0.tasks@.len() == 1,
        r.0.tasks@[0].done(),
        r.1 == (if job.finish_time() > start as int {
            job.finish_time()
        } else {
            start as int
        }),
        r.0.tasks@[0].task_future.job.ticks_seen() == job.ticks_total(),
{
    let mut mini_tokio = MiniTokio::new();
    mini_tokio.spawn(job);
    proof {
        assert(mini_tokio.queue@[0] == 0);
        assert(mini_tokio.queue@.contains(0usize));
    }
    let end = mini_tokio.run(start);
    (mini_tokio, end)
}

} // verus!
