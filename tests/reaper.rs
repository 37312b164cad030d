use std::sync::Arc;

use io_uring_promise::completion::Completion;
use io_uring_promise::cqreaper::{RTWaker, ReaperAction, ReaperMachine, ReaperState, DEFAULT_TIMEOUT_NANOS};
use io_uring_promise::multithread::registry::new_reg_ref;
use io_uring_promise::psqueue::PSubmissionQueue;

#[test]
fn default_timeout_is_one_second() {
    let m = ReaperMachine::new(None);
    assert_eq!(m.timeout, 1_000_000_000);
    assert_eq!(DEFAULT_TIMEOUT_NANOS, 1_000_000_000);
    assert_eq!(m.state, ReaperState::Blocked);
    assert_eq!(ReaperMachine::new(Some(5)).timeout, 5);
}

#[test]
fn woken_reaper_drains_at_once() {
    let mut m = ReaperMachine::new(None);
    assert_eq!(m.on_wake(false, 100), ReaperAction::Reap);
    assert_eq!(m.state, ReaperState::Polling { since: 100 });
    assert_eq!(m.on_reaped(10, 200), ReaperAction::Reap);
    assert_eq!(m.state, ReaperState::Polling { since: 200 });
}

#[test]
fn idle_reaper_blocks_after_timeout() {
    let mut m = ReaperMachine::new(Some(1000));
    m.on_wake(false, 0);
    assert_eq!(m.on_reaped(0, 999), ReaperAction::Reap);
    assert_eq!(m.on_reaped(0, 1000), ReaperAction::Wait);
    assert_eq!(m.state, ReaperState::Blocked);
    assert_eq!(m.on_wake(false, 5000), ReaperAction::Reap);
    assert_eq!(m.on_reaped(1, 5999), ReaperAction::Reap);
    assert_eq!(m.on_reaped(0, 6998), ReaperAction::Reap);
    assert_eq!(m.on_reaped(0, 6999), ReaperAction::Wait);
}

#[test]
fn killed_reaper_makes_final_drain() {
    let mut m = ReaperMachine::new(None);
    assert_eq!(m.on_wake(true, 0), ReaperAction::FinalReap);
    assert!(m.is_killed());
    assert_eq!(m.state, ReaperState::Killed);
}

#[test]
fn wakes_coalesce() {
    let w = RTWaker::new(false);
    w.wake();
    w.wake();
    w.wait();
    let started = RTWaker::new(true);
    started.wait();
}

#[test]
fn reaper_promises_wake_the_reaper() {
    let waker = Arc::new(RTWaker::new(false));
    let reg = new_reg_ref();
    let sq = PSubmissionQueue::new_with_waker(reg.clone(), waker.clone());
    let (p, _) = sq.push(0u8, false).unwrap();
    assert!(!p.poll());
    waker.wait();
    reg.reap(vec![Completion::new(p.get_uuid(), 0, 0)]);
    assert!(p.poll());
    p.wake();
    waker.wait();
}
