//! The scheduler: FIFO ready-queue, spurious-wake tolerance, and complete
//! runs whose clock never outruns a waiter.

use mini_runtime::handle::get_waker;
use mini_runtime::job::{Job, TickDrain};
use mini_runtime::run;
use mini_runtime::sched::{MiniTokio, StepOutcome};
use mini_runtime::ticks::TickStream;
use mini_runtime::timer::Delay;

#[test]
fn step_pops_in_fifo_order() {
    let mut mini = MiniTokio::new();
    mini.spawn(Job::Timer(Delay::until(0)));
    mini.spawn(Job::Timer(Delay::until(0)));
    assert_eq!(mini.queue_len(), 2);
    assert!(matches!(mini.step(0), StepOutcome::Completed { task: 0 }));
    assert!(matches!(mini.step(0), StepOutcome::Completed { task: 1 }));
    assert!(matches!(mini.step(0), StepOutcome::Idle));
}

#[test]
fn pending_task_is_not_requeued_by_the_scheduler() {
    let mut mini = MiniTokio::new();
    mini.spawn(Job::Timer(Delay::until(10)));
    let r = mini.step(0);
    match r {
        StepOutcome::Pending { task, waiter } => {
            assert_eq!(task, 0);
            let w = waiter.unwrap();
            assert_eq!(w.deadline, 10);
            assert_eq!(w.handle, get_waker(0));
        }
        _ => panic!("expected a pending task"),
    }
    // re-queuing is the wake handle's job, not the scheduler's
    assert_eq!(mini.queue_len(), 0);
    assert!(matches!(mini.step(5), StepOutcome::Idle));
    // the waiter fires at the deadline and invokes the handle
    mini.wake(get_waker(0));
    assert!(matches!(mini.step(10), StepOutcome::Completed { task: 0 }));
}

#[test]
fn redundant_wake_after_completion_is_absorbed() {
    let mut mini = MiniTokio::new();
    mini.spawn(Job::Timer(Delay::until(0)));
    assert!(matches!(mini.step(0), StepOutcome::Completed { task: 0 }));
    assert!(mini.task_is_done(0));
    // waking a completed task is legal; the entries are absorbed, the
    // computation is never advanced again, nothing crashes
    mini.wake(get_waker(0));
    mini.wake(get_waker(0));
    assert_eq!(mini.queue_len(), 2);
    assert!(matches!(mini.step(100), StepOutcome::Spurious { task: 0 }));
    assert!(matches!(mini.step(100), StepOutcome::Spurious { task: 0 }));
    assert!(mini.task_is_done(0));
}

#[test]
fn wake_with_unknown_task_is_absorbed() {
    let mut mini = MiniTokio::new();
    mini.wake(get_waker(42));
    assert!(matches!(mini.step(0), StepOutcome::Spurious { task: 42 }));
    assert!(matches!(mini.step(0), StepOutcome::Idle));
}

#[test]
fn run_returns_only_after_the_deadline() {
    // one computation awaiting a timer ten milliseconds ahead: the run ends
    // exactly when the waiter would have fired, and the task completed once
    let (mini, end) = run(Job::Timer(Delay::until(10)), 0);
    assert_eq!(end, 10);
    assert_eq!(mini.task_count(), 1);
    assert!(mini.task_is_done(0));
    assert_eq!(mini.queue_len(), 0);
}

#[test]
fn run_with_elapsed_deadline_finishes_at_start() {
    let (mini, end) = run(Job::Timer(Delay::until(3)), 7);
    assert_eq!(end, 7);
    assert!(mini.task_is_done(0));
}

#[test]
fn run_drains_a_tick_stream() {
    // three ticks, ten milliseconds apart, starting at zero: done at 30,
    // exactly three ticks consumed, a fourth never produced
    let job = Job::Ticks(TickDrain { stream: TickStream::new(0, 10, 3), seen: 0 });
    let (mini, end) = run(job, 0);
    assert_eq!(end, 30);
    assert!(mini.task_is_done(0));
    assert_eq!(mini.task_ticks_seen(0), 3);
}

#[test]
fn run_many_timers_ends_at_the_maximum_deadline() {
    // one hundred independent timers with pseudo-random deadlines between
    // one and ten milliseconds
    let mut mini = MiniTokio::new();
    let mut state: u64 = 0x2545_f491_4f6c_dd1d;
    let mut max_deadline = 0;
    for _ in 0..100 {
        state = state.wrapping_mul(6364136223846793005).wrapping_add(1442695040888963407);
        let deadline = 1 + (state >> 33) % 10;
        if deadline > max_deadline {
            max_deadline = deadline;
        }
        mini.spawn(Job::Timer(Delay::until(deadline)));
    }
    let end = mini.run(0);
    assert_eq!(end, max_deadline);
    assert_eq!(mini.task_count(), 100);
    for i in 0..100 {
        // each completed exactly once, whatever the interleaving
        assert!(mini.task_is_done(i));
    }
    assert_eq!(mini.queue_len(), 0);
}

#[test]
fn run_mixed_timers_and_ticks() {
    let mut mini = MiniTokio::new();
    mini.spawn(Job::Timer(Delay::until(25)));
    mini.spawn(Job::Ticks(TickDrain { stream: TickStream::new(0, 7, 4), seen: 0 }));
    mini.spawn(Job::Timer(Delay::until(3)));
    let end = mini.run(0);
    assert_eq!(end, 28);
    for i in 0..3 {
        assert!(mini.task_is_done(i));
    }
    assert_eq!(mini.task_ticks_seen(1), 4);
}

#[test]
fn drain_and_fire_due_advance_the_queue_by_hand() {
    let mut mini = MiniTokio::new();
    mini.spawn(Job::Timer(Delay::until(10)));
    mini.spawn(Job::Timer(Delay::until(20)));
    mini.drain(0);
    assert_eq!(mini.queue_len(), 0);
    assert!(!mini.task_is_done(0));
    assert_eq!(mini.next_deadline(), Some(10));
    mini.fire_due(10);
    assert_eq!(mini.queue_len(), 1);
    mini.drain(10);
    assert!(mini.task_is_done(0));
    assert!(!mini.task_is_done(1));
    assert_eq!(mini.next_deadline(), Some(20));
    mini.fire_due(20);
    mini.drain(20);
    assert!(mini.task_is_done(1));
    assert_eq!(mini.next_deadline(), None);
}

#[test]
fn run_started_late_consumes_all_overdue_ticks_at_once() {
    // all three deadlines (10, 20, 30) lie in the past at start 100: the
    // drain consumes every overdue tick without waiting, and never a fourth
    let job = Job::Ticks(TickDrain { stream: TickStream::new(0, 10, 3), seen: 0 });
    let (mini, end) = run(job, 100);
    assert_eq!(end, 100);
    assert!(mini.task_is_done(0));
    assert_eq!(mini.task_ticks_seen(0), 3);
}

#[test]
fn equal_deadlines_complete_in_spawn_order() {
    let mut mini = MiniTokio::new();
    mini.spawn(Job::Timer(Delay::until(5)));
    mini.spawn(Job::Timer(Delay::until(5)));
    mini.drain(0);
    mini.fire_due(5);
    // both waiters fire; the ready-queue serves them oldest first
    assert!(matches!(mini.step(5), StepOutcome::Completed { task: 0 }));
    assert!(matches!(mini.step(5), StepOutcome::Completed { task: 1 }));
}
