//! A suspending computation written out by hand as an explicit state
//! machine: start, wait ten milliseconds on a timer, terminate.
//!
//! It makes the executor contract visible in one place: each advance moves
//! the machine at most one state forward, a pending inner timer propagates
//! its wake registration, and advancing after termination is the forbidden
//! "advance after ready" condition — it faults rather than doing anything.

use vstd::prelude::*;

use crate::handle::WakeHandle;
use crate::timer::{Advance, Delay, WaiterRequest};

verus! {

/// The delay, in milliseconds, that the machine waits before terminating.
pub const STEP_DELAY_MILLIS: u64 = 10;

/// The contract breach a computation reports when it is advanced again
/// after it has already produced its final value.
#[derive(Clone, Copy, Debug, PartialEq, Eq, Structural)]
pub enum Fault {
    /// The computation had already reported ready.
    AdvanceAfterReady,
}

/// A hand-rolled suspending computation: arm a timer on the first advance,
/// wait for it, then terminate.
#[derive(Clone, Copy, Debug)]
pub enum MainFuture {
    /// Not yet advanced.
    State0,
    /// Waiting on the timer.
    State1(Delay),
    /// The final value has been produced; advancing again is a fault.
    Terminated,
}

impl MainFuture {
    /// True once the machine has produced its final value.
    pub open spec fn complete(&self) -> bool {
        self is Terminated
    }

    /// Advance the machine at clock reading `now` under wake handle
    /// `handle`. On the first advance it arms a timer due `STEP_DELAY_MILLIS`
    /// from now and reports pending; it terminates once the timer is ready;
    /// advanced after termination it faults and changes nothing.
    pub fn poll(&mut self, now: u64, handle: WakeHandle) -> (r: Result<
        (Advance, Option<WaiterRequest>),
        Fault,
    >)
        requires
            *old(self) is State0 ==> now + STEP_DELAY_MILLIS <= u64::MAX,
        ensures
            (r is Err) == old(self).complete(),
            r is Err ==> *final(self) == *old(self) && r == Err::<(Advance, Option<WaiterRequest>),
                Fault,
            >(Fault::AdvanceAfterReady),
            *old(self) is State0 ==> (*final(self) matches MainFuture::State1(d) && d.when == now
                + STEP_DELAY_MILLIS && d.waker == Some(handle) && r == Ok::<_, Fault>(
                (Advance::Pending, Some(WaiterRequest { deadline: d.when, handle })),
            )),
            (*old(self) matches MainFuture::State1(d0) && now >= d0.when) ==> *final(self)
                is Terminated && r == Ok::<_, Fault>((Advance::Ready, None::<WaiterRequest>)),
            (*old(self) matches MainFuture::State1(d0) && now < d0.when) ==> (*final(self)
                matches MainFuture::State1(d1) && d1.when == (*old(self))->State1_0.when && d1.waker
                == Some(handle) && r == Ok::<_, Fault>(
                (
                    Advance::Pending,
                    if (*old(self))->State1_0.waker is None {
                        Some(WaiterRequest { deadline: d1.when, handle })
                    } else {
                        None::<WaiterRequest>
                    },
                ),
            )),
    {
        match self {
            MainFuture::State0 => {
                let mut delay = Delay::until(now + STEP_DELAY_MILLIS);
                let (a, w) = delay.poll(now, handle);
                // the deadline is strictly ahead of `now`, so this first
                // advance always reports pending and arms the one waiter
                *self = MainFuture::State1(delay);
                Ok((a, w))
            },
            MainFuture::State1(delay) => {
                let (a, w) = delay.poll(now, handle);
                match a {
                    Advance::Ready => {
                        *self = MainFuture::Terminated;
                        Ok((Advance::Ready, None))
                    },
                    Advance::Pending => Ok((Advance::Pending, w)),
                }
            },
            MainFuture::Terminated => Err(Fault::AdvanceAfterReady),
        }
    }
}

/// Drive a fresh `MainFuture` to completion by hand, standing in for the
/// waiting a background waiter would do: advance it, and when it reports
/// pending, move the clock straight to the deadline of the waiter it
/// requested. Returns the clock reading at which it terminated.
pub fn manual(start: u64) -> (end: u64)
    requires
        start + STEP_DELAY_MILLIS <= u64::MAX,
    ensures
        end == start + STEP_DELAY_MILLIS,
{
    let mut fut = MainFuture::State0;
    let handle = crate::handle::get_waker(0);
    let first = fut.poll(start, handle);
    match first {
        Ok((_, Some(w))) => {
            let now = w.deadline;
            let _ = fut.poll(now, handle);
            proof {
                assert(fut is Terminated);
            }
            now
        },
        _ => {
            // unreachable: the first advance of a fresh machine always
            // reports pending with a waiter request
            proof {
                assert(false);
            }
            start
        },
    }
}

} // verus!
