//! The timer primitive: pending before the deadline, ready at or after it,
//! one background waiter, stale wake handles replaced.

use mini_runtime::handle::{get_waker, WakeHandle};
use mini_runtime::timer::{Advance, Delay, WaiterRequest};

#[test]
fn timer_pending_before_deadline_then_ready() {
    let h = get_waker(0);
    let mut d = Delay::until(10);
    let (a, w) = d.poll(3, h);
    assert_eq!(a, Advance::Pending);
    assert_eq!(w, Some(WaiterRequest { deadline: 10, handle: h }));
    let (a, w) = d.poll(9, h);
    assert_eq!(a, Advance::Pending);
    assert_eq!(w, None);
    let (a, w) = d.poll(10, h);
    assert_eq!(a, Advance::Ready);
    assert_eq!(w, None);
}

#[test]
fn timer_ready_immediately_when_deadline_passed() {
    let h = get_waker(0);
    let mut d = Delay::until(5);
    let (a, w) = d.poll(5, h);
    assert_eq!(a, Advance::Ready);
    assert_eq!(w, None);
    // no waiter was ever started and no handle captured
    assert_eq!(d.waker, None);
}

#[test]
fn timer_spawns_exactly_one_waiter() {
    let h = get_waker(2);
    let mut d = Delay::until(100);
    let (_, w1) = d.poll(0, h);
    assert!(w1.is_some());
    let (_, w2) = d.poll(1, h);
    assert_eq!(w2, None);
    let (_, w3) = d.poll(2, h);
    assert_eq!(w3, None);
}

#[test]
fn timer_replaces_stale_wake_handle() {
    let h1 = get_waker(1);
    let h2 = get_waker(2);
    let mut d = Delay::until(50);
    let (_, w) = d.poll(0, h1);
    assert_eq!(w, Some(WaiterRequest { deadline: 50, handle: h1 }));
    assert_eq!(d.waker, Some(h1));
    // the computation moved to another task: the stored handle must be
    // replaced so the eventual notification reaches the current owner,
    // without a second waiter being started
    let (a, w) = d.poll(10, h2);
    assert_eq!(a, Advance::Pending);
    assert_eq!(w, None);
    assert_eq!(d.waker, Some(h2));
}

#[test]
fn timer_keeps_matching_wake_handle() {
    let h = get_waker(4);
    let same = get_waker(4);
    assert!(h.will_wake(&same));
    let mut d = Delay::until(50);
    let (_, _) = d.poll(0, h);
    let (_, _) = d.poll(1, same);
    assert_eq!(d.waker, Some(h));
}

#[test]
fn wake_handles_compare_by_task() {
    let a = get_waker(1);
    let b = get_waker(2);
    let c = WakeHandle { task: 1 };
    assert!(!a.will_wake(&b));
    assert!(a.will_wake(&c));
    assert_eq!(a, c);
}
