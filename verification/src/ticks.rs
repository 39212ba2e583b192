//! The tick stream: a lazy, finite, non-restartable sequence of unit ticks,
//! produced by repeatedly re-arming a timer at a fixed period.
//!
//! Each tick's deadline is the previous deadline plus the period — not "now
//! plus the period" — so the schedule does not drift. Once the remaining
//! count reaches zero the stream reports end-of-sequence on every further
//! advance and never produces another tick.

use vstd::prelude::*;

use crate::handle::WakeHandle;
use crate::timer::{Advance, Delay, WaiterRequest};

verus! {

/// The outcome of advancing a tick stream one step.
#[derive(Clone, Copy, Debug, PartialEq, Eq, Structural)]
pub enum TickPoll {
    /// One tick was produced.
    Tick,
    /// The stream is exhausted; no further tick will ever be produced.
    End,
    /// The next tick's deadline has not passed; the supplied wake handle has
    /// been registered with the inner timer.
    Pending,
}

/// A bounded periodic tick source.
#[derive(Clone, Copy, Debug)]
pub struct TickStream {
    /// Timer for the next tick.
    pub delay: Delay,
    /// Milliseconds between consecutive tick deadlines.
    pub period: u64,
    /// Ticks still to be produced.
    pub rem: u64,
}

impl TickStream {
    /// Deadlines stay representable — even the last tick's deadline fits in
    /// the clock — and a waiter is in flight only while a tick is still
    /// owed.
    pub open spec fn wf(&self) -> bool {
        &&& self.delay.when + self.period * self.rem <= u64::MAX
        &&& self.delay.waker is Some ==> self.rem >= 1
    }

    /// Construct a stream of `count` ticks with the first deadline one
    /// period after `start`.
    pub fn new(start: u64, period: u64, count: u64) -> (s: TickStream)
        requires
            start + period + period * count <= u64::MAX,
        ensures
            s.delay.when == start + period,
            s.delay.waker is None,
            s.period == period,
            s.rem == count,
            s.wf(),
    {
        TickStream { delay: Delay::until(start + period), period, rem: count }
    }

    /// Advance the stream at clock reading `now` under wake handle `handle`.
    ///
    /// With no ticks remaining this reports end-of-sequence and changes
    /// nothing. Otherwise it advances the inner timer: if the timer is ready
    /// the stream re-arms a fresh timer at the previous deadline plus the
    /// period, decrements the remaining count, and reports one tick; if the
    /// timer is still pending, its wake registration is propagated unchanged.
    pub fn poll_next(&mut self, now: u64, handle: WakeHandle) -> (r: (
        TickPoll,
        Option<WaiterRequest>,
    ))
        requires
            old(self).wf(),
        ensures
            final(self).wf(),
            final(self).period == old(self).period,
            (r.0 is End) == (old(self).rem == 0),
            r.0 is End ==> *final(self) == *old(self) && r.1 is None,
            (r.0 is Tick) == (old(self).rem > 0 && now >= old(self).delay.when),
            r.0 is Tick ==> final(self).rem == old(self).rem - 1
                && final(self).delay.when == old(self).delay.when + old(self).period
                && final(self).delay.waker is None && r.1 is None,
            (r.0 is Pending) == (old(self).rem > 0 && now < old(self).delay.when),
            r.0 is Pending ==> final(self).rem == old(self).rem
                && final(self).delay.when == old(self).delay.when
                && final(self).delay.waker == Some(handle),
            r.0 is Pending ==> r.1 == (if old(self).delay.waker is None {
                Some(WaiterRequest { deadline: old(self).delay.when, handle })
            } else {
                None::<WaiterRequest>
            }),
    {
        if self.rem == 0 {
            return (TickPoll::End, None);
        }
        let (a, w) = self.delay.poll(now, handle);
        match a {
            Advance::Ready => {
                proof {
                    assert(self.delay.when + self.period * self.rem <= u64::MAX);
                    assert(self.period * self.rem == self.period * (self.rem - 1) + self.period)
                        by (nonlinear_arith);
                    assert(self.period * (self.rem - 1) >= 0) by (nonlinear_arith)
                        requires
                            self.rem >= 1,
                            self.period >= 0,
                    ;
                }
                let next = self.delay.when + self.period;
                self.delay = Delay::until(next);
                self.rem = self.rem - 1;
                (TickPoll::Tick, None)
            }
            Advance::Pending => (TickPoll::Pending, w),
        }
    }
}

} // verus!
