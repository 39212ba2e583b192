//! The tick stream: exactly `count` ticks, spaced one period apart with no
//! drift, then end-of-sequence forever.

use mini_runtime::handle::get_waker;
use mini_runtime::ticks::{TickPoll, TickStream};
use mini_runtime::timer::WaiterRequest;

#[test]
fn tick_stream_produces_exactly_count_ticks() {
    let h = get_waker(0);
    let mut s = TickStream::new(0, 10, 3);
    let mut ticks = 0;
    let mut now = 0;
    while now <= 100 {
        match s.poll_next(now, h).0 {
            TickPoll::Tick => ticks += 1,
            TickPoll::End => break,
            TickPoll::Pending => {}
        }
        now += 1;
    }
    assert_eq!(ticks, 3);
    // end-of-sequence on every subsequent advance, never an extra tick
    for later in [100, 200, 300] {
        let (t, w) = s.poll_next(later, h);
        assert_eq!(t, TickPoll::End);
        assert_eq!(w, None);
    }
}

#[test]
fn tick_deadlines_are_spaced_one_period_apart() {
    let h = get_waker(0);
    let mut s = TickStream::new(0, 10, 3);
    // strictly before each deadline the stream is pending
    assert_eq!(s.poll_next(9, h).0, TickPoll::Pending);
    assert_eq!(s.poll_next(10, h).0, TickPoll::Tick);
    assert_eq!(s.delay.when, 20);
    assert_eq!(s.poll_next(19, h).0, TickPoll::Pending);
    assert_eq!(s.poll_next(20, h).0, TickPoll::Tick);
    assert_eq!(s.delay.when, 30);
    assert_eq!(s.poll_next(29, h).0, TickPoll::Pending);
    assert_eq!(s.poll_next(30, h).0, TickPoll::Tick);
    assert_eq!(s.poll_next(31, h).0, TickPoll::End);
}

#[test]
fn tick_rearms_at_previous_deadline_plus_period_not_now() {
    let h = get_waker(0);
    let mut s = TickStream::new(0, 10, 2);
    // the first tick is consumed late, at 17; the next deadline must still
    // be 20, not 27 — the schedule does not drift
    assert_eq!(s.poll_next(17, h).0, TickPoll::Tick);
    assert_eq!(s.delay.when, 20);
}

#[test]
fn tick_stream_with_zero_count_ends_immediately() {
    let h = get_waker(0);
    let mut s = TickStream::new(0, 10, 0);
    let (t, w) = s.poll_next(0, h);
    assert_eq!(t, TickPoll::End);
    assert_eq!(w, None);
}

#[test]
fn tick_stream_pending_registers_waiter_once() {
    let h = get_waker(5);
    let mut s = TickStream::new(0, 10, 1);
    let (t, w) = s.poll_next(0, h);
    assert_eq!(t, TickPoll::Pending);
    assert_eq!(w, Some(WaiterRequest { deadline: 10, handle: h }));
    let (t, w) = s.poll_next(5, h);
    assert_eq!(t, TickPoll::Pending);
    assert_eq!(w, None);
    assert_eq!(s.delay.waker, Some(h));
}
