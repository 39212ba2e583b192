//! The timer primitive: a suspending computation that becomes ready at or
//! after a deadline.
//!
//! Advancing a `Delay` before its deadline stores the supplied wake handle
//! and, the first time only, asks the driver to start one background waiter
//! (`WaiterRequest`). On every later advance the stored handle is compared
//! with the current one and replaced if they differ, so that the eventual
//! notification reaches the computation's current owner; the waiter already
//! in flight is never duplicated.

use vstd::prelude::*;

use crate::handle::WakeHandle;

verus! {

/// The outcome of advancing a suspending computation one step.
#[derive(Clone, Copy, Debug, PartialEq, Eq, Structural)]
pub enum Advance {
    /// The computation produced its final value.
    Ready,
    /// Not ready yet; the wake handle supplied to this advance has been
    /// registered and will be invoked when readiness can next be checked.
    Pending,
}

/// An instruction to the loop driver: start one background waiter that
/// blocks until `deadline` and then invokes `handle`.
#[derive(Clone, Copy, Debug, PartialEq, Eq, Structural)]
pub struct WaiterRequest {
    /// The clock reading (milliseconds) at or after which the waiter fires.
    pub deadline: u64,
    /// The handle the waiter invokes when it fires.
    pub handle: WakeHandle,
}

/// A one-shot timer: ready at or after `when`.
#[derive(Clone, Copy, Debug)]
pub struct Delay {
    /// The deadline, as a clock reading in milliseconds.
    pub when: u64,
    /// The wake handle captured by the most recent pending advance; `Some`
    /// exactly when a background waiter is in flight for this timer.
    pub waker: Option<WakeHandle>,
}

impl Delay {
    /// Construct an unarmed timer with deadline `time`.
    pub fn until(time: u64) -> (d: Delay)
        ensures
            d.when == time,
            d.waker is None,
    {
        Delay { when: time, waker: None }
    }

    /// Advance the timer at clock reading `now` under wake handle `handle`.
    ///
    /// Before the deadline this reports pending, stores `handle` (replacing a
    /// stale one), and requests a background waiter on the first arming only.
    /// At or after the deadline it reports ready and changes nothing.
    pub fn poll(&mut self, now: u64, handle: WakeHandle) -> (r: (Advance, Option<WaiterRequest>))
        ensures
            final(self).when == old(self).when,
            (r.0 is Ready) == (now >= old(self).when),
            r.0 is Ready ==> final(self).waker == old(self).waker && r.1 is None,
            r.0 is Pending ==> final(self).waker == Some(handle),
            r.0 is Pending ==> r.1 == (if old(self).waker is None {
                Some(WaiterRequest { deadline: old(self).when, handle })
            } else {
                None::<WaiterRequest>
            }),
    {
        if now >= self.when {
            return (Advance::Ready, None);
        }
        match self.waker {
            Some(stored) => {
                // The computation may have moved to a different task since
                // the waiter was started; make sure the handle that will be
                // signaled is the current one.
                if !stored.will_wake(&handle) {
                    self.waker = Some(handle);
                }
                (Advance::Pending, None)
            }
            None => {
                self.waker = Some(handle);
                (Advance::Pending, Some(WaiterRequest { deadline: self.when, handle }))
            }
        }
    }
}

} // verus!
