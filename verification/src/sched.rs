//! The scheduler: a ready-queue of tasks, popped and advanced one at a time.
//!
//! The run loop is single-threaded and cooperative. Advancing never blocks
//! it: a pending computation delegates its wait to a background waiter and
//! the scheduler moves on. The scheduler never re-queues a pending task
//! itself — liveness rests entirely on the wake handle the computation
//! captured, and the well-formedness invariant `live_tasks_reachable` states
//! exactly that: a task that still owes work is queued, or holds a wake
//! handle that leads back to its own slot.

use vstd::prelude::*;

use crate::handle::WakeHandle;
use crate::job::{advance_rel, Job};
use crate::task::{Task, TaskFuture};
use crate::timer::WaiterRequest;

verus! {

/// The progress still owed by a table of tasks: the sum of the tasks'
/// measures. The run loop terminates because every round of due wake-ups
/// strictly decreases it.
pub open spec fn total_measure(tasks: Seq<Task>) -> nat
    decreases tasks.len(),
{
    if tasks.len() == 0 {
        0
    } else {
        total_measure(tasks.drop_last()) + tasks.last().measure()
    }
}

/// Replacing one task changes the sum by the difference of the measures.
pub proof fn lemma_total_measure_update(tasks: Seq<Task>, i: int, t: Task)
    requires
        0 <= i < tasks.len(),
    ensures
        total_measure(tasks.update(i, t)) + tasks[i].measure() == total_measure(tasks)
            + t.measure(),
    decreases tasks.len(),
{
    if i == tasks.len() - 1 {
        assert(tasks.update(i, t).drop_last() =~= tasks.drop_last());
    } else {
        lemma_total_measure_update(tasks.drop_last(), i, t);
        assert(tasks.update(i, t).drop_last() =~= tasks.drop_last().update(i, t));
    }
}

/// One scheduler step popped `task` and found it stale: out of range or
/// already complete. Nothing was advanced.
pub open spec fn step_spurious(pre: MiniTokio, post: MiniTokio, task: usize) -> bool {
    &&& task == pre.queue@[0]
    &&& post.tasks@ == pre.tasks@
    &&& (task >= pre.tasks@.len() || pre.tasks@[task as int].done())
}

/// One scheduler step popped `task` and advanced its computation once, under
/// a wake handle bound to `task`; no other task changed.
pub open spec fn step_advanced(
    pre: MiniTokio,
    post: MiniTokio,
    now: u64,
    task: usize,
    ready: bool,
    waiter: Option<WaiterRequest>,
) -> bool {
    &&& task == pre.queue@[0]
    &&& (task as int) < pre.tasks@.len()
    &&& !pre.tasks@[task as int].done()
    &&& post.tasks@[task as int].done() == ready
    &&& post.tasks@[task as int].id == task
    &&& advance_rel(
        pre.tasks@[task as int].task_future.job,
        post.tasks@[task as int].task_future.job,
        now,
        (WakeHandle { task }),
        ready,
        waiter,
    )
    &&& post.tasks@ == pre.tasks@.update(task as int, post.tasks@[task as int])
}

/// The ready-queue entry at position `k` names a task that still owes work
/// and whose horizon has passed: popping it is guaranteed to make progress.
pub open spec fn queued_live_due(m: MiniTokio, k: int, now: u64) -> bool {
    &&& 0 <= k < m.queue@.len()
    &&& (m.queue@[k] as int) < m.tasks@.len()
    &&& !m.tasks@[m.queue@[k] as int].done()
    &&& m.tasks@[m.queue@[k] as int].horizon() <= now
}

/// How one task may change while the scheduler works, the clock never having
/// read more than `now`: its slot is fixed, completion is permanent and
/// happens no earlier than the computation's finish time, the finish time
/// itself stands until completion, owed progress never grows, and the
/// computation keeps its kind — a timer keeps its deadline, a tick drain its
/// period, and its consumed-tick count only grows, reaching the stream's
/// total exactly when it completes.
pub open spec fn task_evolves(pre: Task, post: Task, now: u64) -> bool {
    &&& post.id == pre.id
    &&& pre.done() ==> post == pre
    &&& post.done() ==> pre.done() || now >= pre.task_future.job.finish_time()
    &&& !post.done() ==> post.task_future.job.finish_time() == pre.task_future.job.finish_time()
    &&& post.task_future.job.ticks_total() == pre.task_future.job.ticks_total()
    &&& post.measure() <= pre.measure()
    &&& pre.task_future.job matches Job::Timer(d0) ==> post.task_future.job matches Job::Timer(d1)
        && d1.when == d0.when
    &&& pre.task_future.job matches Job::Ticks(t0) ==> post.task_future.job matches Job::Ticks(t1)
        && t1.stream.period == t0.stream.period && t1.seen >= t0.seen
    &&& !pre.done() && post.done() ==> (post.task_future.job matches Job::Ticks(t1)
        ==> t1.stream.rem == 0)
}

/// `task_evolves` composes across successive activity at a never-decreasing
/// clock.
pub proof fn lemma_task_evolves_trans(a: Task, b: Task, c: Task, n1: u64, n2: u64)
    requires
        task_evolves(a, b, n1),
        task_evolves(b, c, n2),
        n1 <= n2,
    ensures
        task_evolves(a, c, n2),
{
}

/// `task_evolves` survives the clock moving forward.
pub proof fn lemma_task_evolves_widen(a: Task, b: Task, n1: u64, n2: u64)
    requires
        task_evolves(a, b, n1),
        n1 <= n2,
    ensures
        task_evolves(a, b, n2),
{
}

/// A queued task other than the one at the front stays queued when the front
/// entry is popped.
proof fn lemma_contains_after_pop(q: Seq<usize>, j: usize)
    requires
        q.len() > 0,
        q.contains(j),
        q[0] != j,
    ensures
        q.drop_first().contains(j),
{
    let k = choose|k: int| 0 <= k < q.len() && q[k] == j;
    assert(q.drop_first()[k - 1] == j);
}

/// Popping the front entry `i` of the ready-queue keeps every live task
/// reachable, as long as the task it names ends up complete or armed with a
/// wake handle bound to its own slot.
proof fn lemma_step_keeps_reachable(pre: MiniTokio, post: MiniTokio, i: usize)
    requires
        pre.live_tasks_reachable(),
        pre.queue@.len() > 0,
        pre.queue@[0] == i,
        post.queue@ == pre.queue@.drop_first(),
        post.tasks@.len() == pre.tasks@.len(),
        forall|j: int| 0 <= j < pre.tasks@.len() && j != i ==> post.tasks@[j] == pre.tasks@[j],
        (i as int) < post.tasks@.len() ==> post.tasks@[i as int].done()
            || post.tasks@[i as int].target() == Some(WakeHandle { task: i }),
    ensures
        post.live_tasks_reachable(),
{
    assert forall|j: int|
        0 <= j < post.tasks@.len() && !(#[trigger] post.tasks@[j]).done() implies post.queue@.contains(
        j as usize,
    ) || post.tasks@[j].target() == Some(WakeHandle { task: j as usize }) by {
        if j != i as int {
            assert(pre.tasks@.len() == pre.tasks.len());
            assert(j as usize as int == j);
            assert(post.tasks@[j] == pre.tasks@[j]);
            if pre.queue@.contains(j as usize) {
                assert(pre.queue@[0] != j as usize);
                lemma_contains_after_pop(pre.queue@, j as usize);
            }
        }
    }
}

/// What one scheduler step did, so that a loop driver can act on it.
#[derive(Clone, Copy, Debug)]
pub enum StepOutcome {
    /// The ready-queue was empty; nothing was advanced.
    Idle,
    /// The popped entry named no live task — a redundant wake-up, absorbed
    /// without advancing anything.
    Spurious { task: usize },
    /// The popped task was advanced and completed.
    Completed { task: usize },
    /// The popped task was advanced and is still pending; if `waiter` is set
    /// the driver must start one background waiter for it.
    Pending { task: usize, waiter: Option<WaiterRequest> },
}

/// The scheduler: a task table and a FIFO ready-queue of task indices.
pub struct MiniTokio {
    /// All tasks ever spawned, by slot; completed ones stay in place.
    pub tasks: Vec<Task>,
    /// Indices of tasks awaiting advancement, oldest first. Entries are
    /// appended by `spawn` and `wake` and popped from the front by `step`;
    /// redundant or stale entries are legal.
    pub queue: Vec<usize>,
}

impl MiniTokio {
    /// Every task is well-formed and sits in the slot its wake handles name.
    pub open spec fn wf(&self) -> bool {
        forall|i: int|
            0 <= i < self.tasks@.len() ==> (#[trigger] self.tasks@[i]).wf() && self.tasks@[i].id
                == i
    }

    /// Every task that still owes work can still be reached: it is queued,
    /// or a pending advance has registered a wake handle bound to its own
    /// slot and left it progress to make.
    pub open spec fn live_tasks_reachable(&self) -> bool {
        forall|i: int|
            0 <= i < self.tasks@.len() && !(#[trigger] self.tasks@[i]).done()
                ==> self.queue@.contains(i as usize) || self.tasks@[i].target() == Some(
                WakeHandle { task: i as usize },
            )
    }

    /// A fresh scheduler with no tasks and an empty ready-queue.
    pub fn new() -> (m: MiniTokio)
        ensures
            m.wf(),
            m.tasks@.len() == 0,
            m.queue@.len() == 0,
    {
        MiniTokio { tasks: Vec::new(), queue: Vec::new() }
    }

    /// Submit a computation: wrap it in a new task and enqueue it.
    pub fn spawn(&mut self, job: Job)
        requires
            old(self).wf(),
            job.wf(),
        ensures
            final(self).wf(),
            final(self).tasks@ == old(self).tasks@.push(
                (Task {
                    task_future: TaskFuture { job, done: false },
                    id: old(self).tasks@.len() as usize,
                }),
            ),
            final(self).queue@ == old(self).queue@.push(old(self).tasks@.len() as usize),
    {
        let id = self.tasks.len();
        let task = Task::new(job, id);
        self.tasks.push(task);
        self.queue.push(id);
    }

    /// Invoke a wake handle: enqueue the task it is bound to,
    /// unconditionally. Waking a task that is already complete is legal; the
    /// redundant entry is absorbed when `step` pops it.
    pub fn wake(&mut self, handle: WakeHandle)
        ensures
            final(self).tasks@ == old(self).tasks@,
            final(self).queue@ == old(self).queue@.push(handle.task),
    {
        self.queue.push(handle.task);
    }

    /// One turn of the run loop at clock reading `now`: pop the oldest
    /// ready-queue entry and advance the task it names, unless the entry is
    /// stale. The scheduler does not re-queue a pending task; the wake
    /// handle registered by the computation is responsible for that.
    pub fn step(&mut self, now: u64) -> (r: StepOutcome)
        requires
            old(self).wf(),
        ensures
            final(self).wf(),
            final(self).tasks@.len() == old(self).tasks@.len(),
            old(self).live_tasks_reachable() ==> final(self).live_tasks_reachable(),
            (r is Idle) == (old(self).queue@.len() == 0),
            r is Idle ==> *final(self) == *old(self),
            old(self).queue@.len() > 0 ==> final(self).queue@ == old(self).queue@.drop_first(),
            old(self).queue@.len() > 0 ==> (match r {
                StepOutcome::Idle => false,
                StepOutcome::Spurious { task } => step_spurious(*old(self), *final(self), task),
                StepOutcome::Completed { task } => step_advanced(
                    *old(self),
                    *final(self),
                    now,
                    task,
                    true,
                    None,
                ),
                StepOutcome::Pending { task, waiter } => step_advanced(
                    *old(self),
                    *final(self),
                    now,
                    task,
                    false,
                    waiter,
                ),
            }),
    {
        if self.queue.len() == 0 {
            return StepOutcome::Idle;
        }
        let i = self.queue.remove(0);
        if i >= self.tasks.len() {
            proof {
                if old(self).live_tasks_reachable() {
                    lemma_step_keeps_reachable(*old(self), *self, i);
                }
            }
            return StepOutcome::Spurious { task: i };
        }
        if self.tasks[i].is_done() {
            // a redundant wake of a completed task: find nothing to do
            proof {
                if old(self).live_tasks_reachable() {
                    lemma_step_keeps_reachable(*old(self), *self, i);
                }
            }
            return StepOutcome::Spurious { task: i };
        }
        let ghost mid = *self;
        let waiter = self.tasks[i].poll(now);
        proof {
            assert(self.tasks@ =~= mid.tasks@.update(i as int, self.tasks@[i as int]));
            if old(self).live_tasks_reachable() {
                lemma_step_keeps_reachable(*old(self), *self, i);
            }
        }
        if self.tasks[i].is_done() {
            StepOutcome::Completed { task: i }
        } else {
            StepOutcome::Pending { task: i, waiter }
        }
    }

    /// Take scheduler steps at clock reading `now` until the ready-queue is
    /// empty. Nothing is ever re-queued while draining, so the queue
    /// shrinks; and if any queued entry named a live task whose horizon had
    /// passed, the total owed progress strictly decreases.
    pub fn drain(&mut self, now: u64)
        requires
            old(self).wf(),
            old(self).live_tasks_reachable(),
        ensures
            final(self).wf(),
            final(self).live_tasks_reachable(),
            final(self).queue@.len() == 0,
            final(self).tasks@.len() == old(self).tasks@.len(),
            total_measure(final(self).tasks@) <= total_measure(old(self).tasks@),
            (exists|k: int| queued_live_due(*old(self), k, now)) ==> total_measure(
                final(self).tasks@,
            ) < total_measure(old(self).tasks@),
            forall|i: int|
                0 <= i < old(self).tasks@.len() ==> task_evolves(
                    old(self).tasks@[i],
                    #[trigger] final(self).tasks@[i],
                    now,
                ),
    {
        let ghost pre = *old(self);
        while self.queue.len() > 0
            invariant
                pre == *old(self),
                self.wf(),
                self.live_tasks_reachable(),
                self.tasks@.len() == pre.tasks@.len(),
                total_measure(self.tasks@) <= total_measure(pre.tasks@),
                (exists|k: int| queued_live_due(pre, k, now)) ==> (total_measure(self.tasks@)
                    < total_measure(pre.tasks@) || exists|k: int| queued_live_due(*self, k, now)),
                forall|i: int|
                    0 <= i < pre.tasks@.len() ==> task_evolves(
                        pre.tasks@[i],
                        #[trigger] self.tasks@[i],
                        now,
                    ),
            decreases self.queue@.len(),
        {
            let ghost mid = *self;
            let r = self.step(now);
            proof {
                let i = mid.queue@[0] as int;
                match r {
                    StepOutcome::Idle => {
                        assert(false);
                    },
                    StepOutcome::Spurious { task } => {
                        assert(self.tasks@ == mid.tasks@);
                    },
                    StepOutcome::Completed { task } => {
                        lemma_total_measure_update(mid.tasks@, i, self.tasks@[i]);
                        assert(self.tasks@[i].measure() == 0);
                        assert(mid.tasks@[i].measure() >= 1);
                        assert(total_measure(self.tasks@) < total_measure(mid.tasks@));
                        assert(task_evolves(mid.tasks@[i], self.tasks@[i], now));
                    },
                    StepOutcome::Pending { task, waiter } => {
                        lemma_total_measure_update(mid.tasks@, i, self.tasks@[i]);
                        assert(task_evolves(mid.tasks@[i], self.tasks@[i], now));
                        if now >= mid.tasks@[i].horizon() {
                            assert(self.tasks@[i].measure() < mid.tasks@[i].measure());
                            assert(total_measure(self.tasks@) < total_measure(mid.tasks@));
                        }
                    },
                }
                // re-establish the per-task evolution from `pre`
                assert forall|j: int| 0 <= j < pre.tasks@.len() implies task_evolves(
                    pre.tasks@[j],
                    #[trigger] self.tasks@[j],
                    now,
                ) by {
                    if self.tasks@[j] == mid.tasks@[j] {
                    } else {
                        lemma_task_evolves_trans(
                            pre.tasks@[j],
                            mid.tasks@[j],
                            self.tasks@[j],
                            now,
                            now,
                        );
                    }
                }
                // keep the progress disjunction
                if exists|k: int| queued_live_due(pre, k, now) {
                    if total_measure(mid.tasks@) < total_measure(pre.tasks@) {
                    } else {
                        let k = choose|k: int| queued_live_due(mid, k, now);
                        if queued_live_due(mid, 0, now) {
                            // the popped entry was live and due: it was advanced
                            // at or after its horizon, so progress was made
                            assert(total_measure(self.tasks@) < total_measure(mid.tasks@));
                        } else {
                            assert(mid.queue@[k] != mid.queue@[0]);
                            assert(self.queue@[k - 1] == mid.queue@[k]);
                            assert(queued_live_due(*self, k - 1, now));
                        }
                    }
                }
            }
        }
    }

    /// The least horizon among tasks that still owe work, if any does: the
    /// next clock reading at which a background waiter would fire.
    pub fn next_deadline(&self) -> (r: Option<u64>)
        ensures
            (r is None) == (forall|i: int|
                0 <= i < self.tasks@.len() ==> (#[trigger] self.tasks@[i]).done()),
            r matches Some(d) ==> (exists|i: int|
                0 <= i < self.tasks@.len() && !(#[trigger] self.tasks@[i]).done()
                    && self.tasks@[i].horizon() == d),
            r matches Some(d) ==> (forall|i: int|
                0 <= i < self.tasks@.len() && !(#[trigger] self.tasks@[i]).done()
                    ==> self.tasks@[i].horizon() >= d),
    {
        let mut best: Option<u64> = None;
        let mut idx: usize = 0;
        while idx < self.tasks.len()
            invariant
                idx <= self.tasks@.len(),
                (best is None) == (forall|i: int|
                    0 <= i < idx ==> (#[trigger] self.tasks@[i]).done()),
                best matches Some(b) ==> (exists|i: int|
                    0 <= i < idx && !(#[trigger] self.tasks@[i]).done() && self.tasks@[i].horizon()
                        == b),
                best matches Some(b) ==> (forall|i: int|
                    0 <= i < idx && !(#[trigger] self.tasks@[i]).done()
                        ==> self.tasks@[i].horizon() >= b),
            decreases self.tasks@.len() - idx,
        {
            if !self.tasks[idx].is_done() {
                let h = self.tasks[idx].deadline();
                best = match best {
                    None => Some(h),
                    Some(b) => if h < b {
                        Some(h)
                    } else {
                        Some(b)
                    },
                };
            }
            idx = idx + 1;
        }
        best
    }

    /// Wake, through its stored handle, every task that still owes work and
    /// whose horizon has passed — what the tasks' background waiters would
    /// do once the clock reads `now`.
    pub fn fire_due(&mut self, now: u64)
        requires
            old(self).wf(),
            old(self).live_tasks_reachable(),
            old(self).queue@.len() == 0,
        ensures
            final(self).wf(),
            final(self).live_tasks_reachable(),
            final(self).tasks@ == old(self).tasks@,
            forall|i: int|
                0 <= i < old(self).tasks@.len() && !(#[trigger] old(self).tasks@[i]).done() && old(
                    self,
                ).tasks@[i].horizon() <= now ==> final(self).queue@.contains(i as usize),
    {
        let ghost pre = *old(self);
        let mut idx: usize = 0;
        while idx < self.tasks.len()
            invariant
                pre == *old(self),
                idx <= self.tasks@.len(),
                pre.wf(),
                pre.live_tasks_reachable(),
                pre.queue@.len() == 0,
                self.tasks@ == pre.tasks@,
                forall|i: int|
                    0 <= i < idx && !(#[trigger] pre.tasks@[i]).done() && pre.tasks@[i].horizon()
                        <= now ==> self.queue@.contains(i as usize),
            decreases self.tasks@.len() - idx,
        {
            if !self.tasks[idx].is_done() {
                if self.tasks[idx].deadline() <= now {
                    // the queue was empty, so every live task is armed with a
                    // handle bound to its own slot
                    let target = self.tasks[idx].current_target();
                    let ghost before_q = self.queue@;
                    match target {
                        Some(h) => {
                            self.wake(h);
                            proof {
                                assert(h.task == idx);
                                assert forall|j: usize| before_q.contains(j)
                                    implies self.queue@.contains(j) by {
                                    lemma_contains_after_push(before_q, h.task, j);
                                }
                                assert(self.queue@[self.queue@.len() - 1] == idx);
                            }
                        },
                        None => {
                            // unreachable: the task is live and the queue held
                            // no entry for it, so a wake handle is stored
                        },
                    }
                }
            }
            idx = idx + 1;
        }
    }

    /// Drive every task to completion, standing in for real waiting: starting
    /// at `start`, repeatedly drain the ready-queue, then move the clock to
    /// the nearest horizon among tasks that still owe work and wake every due
    /// task through its stored handle — exactly what the background waiters
    /// would eventually do. Returns the clock reading at which no task owed
    /// work any more.
    pub fn run(&mut self, start: u64) -> (end: u64)
        requires
            old(self).wf(),
            old(self).live_tasks_reachable(),
        ensures
            final(self).wf(),
            end >= start,
            final(self).queue@.len() == 0,
            final(self).tasks@.len() == old(self).tasks@.len(),
            forall|i: int|
                0 <= i < final(self).tasks@.len() ==> (#[trigger] final(self).tasks@[i]).done(),
            forall|i: int|
                0 <= i < old(self).tasks@.len() ==> task_evolves(
                    old(self).tasks@[i],
                    #[trigger] final(self).tasks@[i],
                    end,
                ),
            forall|i: int|
                0 <= i < old(self).tasks@.len() && !(#[trigger] old(self).tasks@[i]).done()
                    ==> end >= old(self).tasks@[i].task_future.job.finish_time(),
            forall|i: int|
                0 <= i < old(self).tasks@.len() && !(#[trigger] old(self).tasks@[i]).done()
                    ==> final(self).tasks@[i].task_future.job.ticks_seen() == old(
                    self,
                ).tasks@[i].task_future.job.ticks_total(),
            end == start || (exists|i: int|
                0 <= i < old(self).tasks@.len() && !(#[trigger] old(self).tasks@[i]).done() && end
                    <= old(self).tasks@[i].task_future.job.finish_time()),
    {
        let ghost pre = *old(self);
        let mut now = start;
        self.drain(now);
        loop
            invariant
                pre == *old(self),
                self.wf(),
                self.live_tasks_reachable(),
                self.queue@.len() == 0,
                now >= start,
                self.tasks@.len() == pre.tasks@.len(),
                forall|i: int|
                    0 <= i < pre.tasks@.len() ==> task_evolves(
                        pre.tasks@[i],
                        #[trigger] self.tasks@[i],
                        now,
                    ),
                now == start || (exists|i: int|
                    0 <= i < pre.tasks@.len() && !(#[trigger] pre.tasks@[i]).done() && now
                        <= pre.tasks@[i].task_future.job.finish_time()),
            decreases total_measure(self.tasks@),
        {
            let nd = self.next_deadline();
            match nd {
                None => {
                    proof {
                        assert forall|i: int|
                            0 <= i < pre.tasks@.len() && !(#[trigger] pre.tasks@[i]).done()
                                implies now >= pre.tasks@[i].task_future.job.finish_time()
                                && self.tasks@[i].task_future.job.ticks_seen()
                                == pre.tasks@[i].task_future.job.ticks_total() by {
                            assert(task_evolves(pre.tasks@[i], self.tasks@[i], now));
                            assert(self.tasks@[i].done());
                        }
                    }
                    return now;
                },
                Some(d) => {
                    let ghost old_now = now;
                    if d > now {
                        proof {
                            // the clock only moves to the horizon of some
                            // live task, which never lies past that task's
                            // finish time: no waiting is overshot
                            let w = choose|i: int|
                                0 <= i < self.tasks@.len() && !self.tasks@[i].done()
                                    && self.tasks@[i].horizon() == d;
                            assert(!self.queue@.contains(w as usize));
                            assert(self.tasks@[w].target() == Some(
                                WakeHandle { task: w as usize },
                            ));
                            let job = self.tasks@[w].task_future.job;
                            match job {
                                Job::Timer(d0) => {},
                                Job::Ticks(t0) => {
                                    assert(t0.stream.rem >= 1);
                                    assert(t0.stream.period * (t0.stream.rem - 1) >= 0)
                                        by (nonlinear_arith)
                                        requires
                                            t0.stream.rem >= 1,
                                            t0.stream.period >= 0,
                                    ;
                                },
                            }
                            assert(job.finish_time() >= d);
                            assert(task_evolves(pre.tasks@[w], self.tasks@[w], now));
                            assert(!pre.tasks@[w].done());
                            assert(pre.tasks@[w].task_future.job.finish_time()
                                == job.finish_time());
                        }
                        now = d;
                    }
                    proof {
                        assert forall|i: int| 0 <= i < pre.tasks@.len() implies task_evolves(
                            pre.tasks@[i],
                            #[trigger] self.tasks@[i],
                            now,
                        ) by {
                            lemma_task_evolves_widen(pre.tasks@[i], self.tasks@[i], old_now, now);
                        }
                    }
                    let ghost before_fire = *self;
                    self.fire_due(now);
                    let ghost after_fire = *self;
                    proof {
                        // the task at the least horizon is live, due, and now queued
                        let w = choose|i: int|
                            0 <= i < before_fire.tasks@.len() && !before_fire.tasks@[i].done()
                                && before_fire.tasks@[i].horizon() == d;
                        assert(after_fire.queue@.contains(w as usize));
                        let k = choose|k: int|
                            0 <= k < after_fire.queue@.len() && after_fire.queue@[k] == w as usize;
                        assert(after_fire.tasks@.len() == after_fire.tasks.len());
                        assert(w as usize as int == w);
                        assert(queued_live_due(after_fire, k, now));
                    }
                    self.drain(now);
                    proof {
                        assert(total_measure(self.tasks@) < total_measure(after_fire.tasks@));
                        assert forall|i: int| 0 <= i < pre.tasks@.len() implies task_evolves(
                            pre.tasks@[i],
                            #[trigger] self.tasks@[i],
                            now,
                        ) by {
                            lemma_task_evolves_trans(
                                pre.tasks@[i],
                                after_fire.tasks@[i],
                                self.tasks@[i],
                                now,
                                now,
                            );
                        }
                    }
                },
            }
        }
    }

    /// The number of tasks ever spawned on this scheduler.
    pub fn task_count(&self) -> (n: usize)
        ensures
            n == self.tasks@.len(),
    {
        self.tasks.len()
    }

    /// The number of entries currently in the ready-queue.
    pub fn queue_len(&self) -> (n: usize)
        ensures
            n == self.queue@.len(),
    {
        self.queue.len()
    }

    /// Whether the task in slot `i` has completed.
    pub fn task_is_done(&self, i: usize) -> (r: bool)
        requires
            i < self.tasks@.len(),
        ensures
            r == self.tasks@[i as int].done(),
    {
        self.tasks[i].is_done()
    }

    /// Ticks consumed so far by the task in slot `i`; zero for a computation
    /// that consumes none.
    pub fn task_ticks_seen(&self, i: usize) -> (r: u64)
        requires
            i < self.tasks@.len(),
        ensures
            r == self.tasks@[i as int].task_future.job.ticks_seen(),
    {
        match &self.tasks[i].task_future.job {
            Job::Timer(_) => 0,
            Job::Ticks(t) => t.seen,
        }
    }
}

/// Appending to the ready-queue keeps every queued task queued.
proof fn lemma_contains_after_push(q: Seq<usize>, x: usize, y: usize)
    requires
        q.contains(y),
    ensures
        q.push(x).contains(y),
{
    let k = choose|k: int| 0 <= k < q.len() && q[k] == y;
    assert(q.push(x)[k] == y);
}

} // verus!
