//! Suspending computations: the units of work a task owns.
//!
//! A computation, when advanced, either produces its final value (`Ready`)
//! or reports `Pending`, in which case it has registered the wake handle
//! supplied to it and, where needed, asked the driver for one background
//! waiter. `advance_rel` is the single relation every advance satisfies; the
//! task and scheduler layers are proved against it.

use vstd::prelude::*;

use crate::handle::WakeHandle;
use crate::ticks::{TickPoll, TickStream};
use crate::timer::{Advance, Delay, WaiterRequest};

verus! {

/// A tick stream together with the count of ticks consumed so far: the
/// computation that drains the stream to its end and completes.
#[derive(Clone, Copy, Debug)]
pub struct TickDrain {
    /// The stream still to be drained.
    pub stream: TickStream,
    /// Ticks consumed so far.
    pub seen: u64,
}

impl TickDrain {
    /// The tick counter can absorb every remaining tick.
    pub open spec fn wf(&self) -> bool {
        self.stream.wf() && self.seen + self.stream.rem <= u64::MAX
    }

    /// Advance the drain at clock reading `now`: consume every tick whose
    /// deadline has passed, then report ready (stream exhausted) or pending
    /// (next deadline still ahead, wake registration in place).
    pub fn advance(&mut self, now: u64, handle: WakeHandle) -> (r: (Advance, Option<WaiterRequest>))
        requires
            old(self).wf(),
        ensures
            final(self).wf(),
            final(self).stream.period == old(self).stream.period,
            final(self).seen >= old(self).seen,
            final(self).seen + final(self).stream.rem == old(self).seen + old(self).stream.rem,
            final(self).stream.delay.when == old(self).stream.delay.when + old(self).stream.period
                * (final(self).seen - old(self).seen),
            (r.0 is Ready) == (final(self).stream.rem == 0),
            r.0 is Ready ==> r.1 is None,
            r.0 is Ready && old(self).stream.rem >= 1
                ==> now >= old(self).stream.delay.when
                    + old(self).stream.period * (old(self).stream.rem - 1),
            r.0 is Pending
                ==> final(self).stream.delay.waker == Some(handle)
                    && now < final(self).stream.delay.when,
            final(self).seen > old(self).seen
                ==> now + old(self).stream.period >= final(self).stream.delay.when,
            r.0 is Pending
                ==> ((r.1 is Some)
                    == (final(self).seen > old(self).seen
                        || old(self).stream.delay.waker is None)),
            r.1 matches Some(wr)
                ==> wr.handle == handle && wr.deadline == final(self).stream.delay.when,
    {
        let ghost pre = *self;
        loop
            invariant
                pre == *old(self),
                self.wf(),
                self.stream.period == pre.stream.period,
                self.seen >= pre.seen,
                self.seen + self.stream.rem == pre.seen + pre.stream.rem,
                self.stream.delay.when == pre.stream.delay.when + pre.stream.period * (self.seen
                    - pre.seen),
                self.seen > pre.seen ==> self.stream.delay.waker is None && now
                    + pre.stream.period >= self.stream.delay.when,
                self.seen == pre.seen ==> self.stream.delay == pre.stream.delay,
            decreases self.stream.rem,
        {
            let ghost before = *self;
            let (t, w) = self.stream.poll_next(now, handle);
            match t {
                TickPoll::Tick => {
                    proof {
                        let p = pre.stream.period as int;
                        let k = before.seen - pre.seen;
                        assert(p * (k + 1) == p * k + p) by (nonlinear_arith);
                    }
                    self.seen = self.seen + 1;
                }
                TickPoll::End => {
                    proof {
                        if pre.stream.rem >= 1 {
                            let p = pre.stream.period as int;
                            let n = pre.stream.rem as int;
                            assert(p * n == p * (n - 1) + p) by (nonlinear_arith);
                        }
                    }
                    return (Advance::Ready, None);
                }
                TickPoll::Pending => {
                    return (Advance::Pending, w);
                }
            }
        }
    }
}

/// A suspending computation the scheduler can own.
#[derive(Clone, Copy, Debug)]
pub enum Job {
    /// Await a one-shot timer.
    Timer(Delay),
    /// Drain a bounded tick stream to its end.
    Ticks(TickDrain),
}

impl Job {
    pub open spec fn wf(&self) -> bool {
        match self {
            Job::Timer(_) => true,
            Job::Ticks(t) => t.wf(),
        }
    }

    /// An upper bound on the progress steps the computation still needs; it
    /// never grows, and shrinks whenever the computation is advanced at or
    /// after its horizon without completing.
    pub open spec fn measure(&self) -> nat {
        match self {
            Job::Timer(_) => 1,
            Job::Ticks(t) => t.stream.rem as nat,
        }
    }

    /// The clock reading at which advancing the computation is guaranteed to
    /// make progress: the deadline of the timer it currently waits on.
    pub open spec fn horizon(&self) -> u64 {
        match self {
            Job::Timer(d) => d.when,
            Job::Ticks(t) => t.stream.delay.when,
        }
    }

    /// The wake handle the computation's background waiter will invoke, if a
    /// pending advance has registered one.
    pub open spec fn target(&self) -> Option<WakeHandle> {
        match self {
            Job::Timer(d) => d.waker,
            Job::Ticks(t) => t.stream.delay.waker,
        }
    }

    /// The clock reading at or after which the computation can complete: the
    /// timer's deadline, or the last tick's deadline.
    pub open spec fn finish_time(&self) -> int {
        match self {
            Job::Timer(d) => d.when as int,
            Job::Ticks(t) => if t.stream.rem == 0 {
                0
            } else {
                t.stream.delay.when + t.stream.period * (t.stream.rem - 1)
            },
        }
    }

    /// Ticks consumed so far, for computations that count any.
    pub open spec fn ticks_seen(&self) -> u64 {
        match self {
            Job::Timer(_) => 0,
            Job::Ticks(t) => t.seen,
        }
    }

    /// Total ticks the computation will have consumed once complete.
    pub open spec fn ticks_total(&self) -> int {
        match self {
            Job::Timer(_) => 0,
            Job::Ticks(t) => t.seen + t.stream.rem,
        }
    }
}

/// What one advance of a computation does: `pre` is the computation before,
/// `post` after, `ready` whether it completed, `w` the waiter it requested.
pub open spec fn advance_rel(
    pre: Job,
    post: Job,
    now: u64,
    handle: WakeHandle,
    ready: bool,
    w: Option<WaiterRequest>,
) -> bool {
    &&& post.wf()
    &&& post.measure() <= pre.measure()
    &&& post.ticks_total() == pre.ticks_total()
    &&& !ready ==> post.finish_time() == pre.finish_time()
    &&& ready ==> now >= pre.finish_time()
    &&& !ready ==> post.target() == Some(handle) && now < post.horizon() && post.measure() >= 1
    &&& !ready && now >= pre.horizon() ==> post.measure() < pre.measure()
    &&& ready ==> w is None
    &&& w matches Some(wr) ==> !ready && wr.handle == handle && wr.deadline == post.horizon()
    &&& pre matches Job::Timer(d0) ==> post matches Job::Timer(d1) && d1.when == d0.when && ready
        == (now >= d0.when) && (ready ==> d1.waker == d0.waker) && (!ready ==> d1.waker == Some(
        handle,
    ) && w == (if d0.waker is None {
        Some(WaiterRequest { deadline: d0.when, handle })
    } else {
        None::<WaiterRequest>
    }))
    &&& pre matches Job::Ticks(t0) ==> post matches Job::Ticks(t1) && t1.stream.period
        == t0.stream.period && t1.seen >= t0.seen && t1.seen + t1.stream.rem == t0.seen
        + t0.stream.rem && t1.stream.delay.when == t0.stream.delay.when + t0.stream.period * (
    t1.seen - t0.seen) && ready == (t1.stream.rem == 0) && (t1.seen > t0.seen ==> now
        + t0.stream.period >= t1.stream.delay.when) && (!ready ==> t1.stream.delay.waker == Some(
        handle,
    ) && ((w is Some) == (t1.seen > t0.seen || t0.stream.delay.waker is None)))
}

impl Job {
    /// Advance the computation one step at clock reading `now` under wake
    /// handle `handle`.
    pub fn advance(&mut self, now: u64, handle: WakeHandle) -> (r: (Advance, Option<WaiterRequest>))
        requires
            old(self).wf(),
        ensures
            advance_rel(*old(self), *final(self), now, handle, r.0 is Ready, r.1),
    {
        match self {
            Job::Timer(d) => d.poll(now, handle),
            Job::Ticks(t) => {
                let ghost t0 = *t;
                let r = t.advance(now, handle);
                proof {
                    let t1 = *t;
                    let p = t0.stream.period as int;
                    let k = t1.seen - t0.seen;
                    let n0 = t0.stream.rem as int;
                    let n1 = t1.stream.rem as int;
                    if !(r.0 is Ready) {
                        // the finish time is preserved while pending
                        assert(p * k + p * (n1 - 1) == p * (n0 - 1)) by (nonlinear_arith)
                            requires
                                k + n1 == n0,
                        ;
                        if now >= t0.stream.delay.when {
                            // an advance at or after the horizon makes progress
                            assert(p * k > 0);
                            assert(k > 0) by (nonlinear_arith)
                                requires
                                    p >= 0,
                                    k >= 0,
                                    p * k > 0,
                            ;
                        }
                    }
                }
                r
            }
        }
    }
}

} // verus!
