//! The forbidden "advance after ready" condition, and the legal redundant
//! wake-ups that must be absorbed instead.

use mini_runtime::handle::get_waker;
use mini_runtime::job::Job;
use mini_runtime::main_future::{manual, Fault, MainFuture, STEP_DELAY_MILLIS};
use mini_runtime::task::TaskFuture;
use mini_runtime::timer::{Advance, Delay};

#[test]
fn advancing_after_ready_faults() {
    let h = get_waker(0);
    let mut fut = MainFuture::State0;
    let first = fut.poll(0, h).unwrap();
    assert_eq!(first.0, Advance::Pending);
    let deadline = first.1.unwrap().deadline;
    assert_eq!(deadline, STEP_DELAY_MILLIS);
    let second = fut.poll(deadline, h).unwrap();
    assert_eq!(second.0, Advance::Ready);
    // the negative case: advancing a computation that has already reported
    // ready must fault, loudly and without doing anything
    let third = fut.poll(deadline + 1, h);
    assert_eq!(third, Err(Fault::AdvanceAfterReady));
    assert!(matches!(fut, MainFuture::Terminated));
    let fourth = fut.poll(deadline + 2, h);
    assert_eq!(fourth, Err(Fault::AdvanceAfterReady));
}

#[test]
fn task_future_absorbs_polls_after_completion() {
    let h = get_waker(0);
    let mut tf = TaskFuture::new(Job::Timer(Delay::until(5)));
    assert!(!tf.done);
    let w = tf.poll(5, h);
    assert_eq!(w, None);
    assert!(tf.done);
    // a spurious wake after completion is legal: the computation is not
    // advanced again, nothing changes
    let w = tf.poll(50, h);
    assert_eq!(w, None);
    assert!(tf.done);
}

#[test]
fn manual_drive_returns_at_the_deadline() {
    assert_eq!(manual(0), STEP_DELAY_MILLIS);
    assert_eq!(manual(1000), 1000 + STEP_DELAY_MILLIS);
}
