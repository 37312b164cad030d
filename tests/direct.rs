use io_uring_promise::completion::Completion;
use io_uring_promise::direct::PIoUring;
use io_uring_promise::error::Error;
use io_uring_promise::pstatus::PromiseStatus;

#[test]
fn pushed_promises_complete_after_reap() {
    let mut ring = PIoUring::new();
    let mut promises = Vec::new();
    for i in 0..10u32 {
        let (p, e) = ring.push(i, false).unwrap();
        assert_eq!(e, i);
        promises.push(p);
    }
    for p in &promises {
        assert!(!ring.poll(p));
        assert_eq!(ring.status(p), PromiseStatus::Scheduled);
    }
    let drained: Vec<Completion> = promises.iter().map(|p| Completion::new(p.get_uuid(), 0, 0)).collect();
    assert_eq!(ring.reap(drained), 10);
    for p in &promises {
        assert!(ring.poll(p));
    }
    for p in &promises {
        let c = ring.try_wait(p).unwrap();
        assert_eq!(c.user_data(), p.get_uuid());
    }
}

#[test]
fn full_submission_side_hands_entry_back() {
    let mut ring = PIoUring::new();
    assert_eq!(ring.push("nop", true).err(), Some("nop"));
    let (p, _) = ring.push("nop", false).unwrap();
    assert_eq!(p.get_uuid(), 0);
}

#[test]
fn push_multiple_is_all_or_nothing() {
    let mut ring = PIoUring::new();
    let back = ring.push_multiple(vec![1, 2, 3], 2).err().unwrap();
    assert_eq!(back, vec![1, 2, 3]);
    let accepted = ring.push_multiple(vec![1, 2, 3], 3).unwrap();
    let tags: Vec<u64> = accepted.iter().map(|(p, _)| p.get_uuid()).collect();
    let entries: Vec<i32> = accepted.iter().map(|(_, e)| *e).collect();
    assert_eq!(tags, vec![0, 1, 2]);
    assert_eq!(entries, vec![1, 2, 3]);
}

#[test]
fn try_wait_before_completion_keeps_promise() {
    let mut ring = PIoUring::new();
    let (p, _) = ring.push((), false).unwrap();
    match ring.try_wait(&p) {
        Err(Error::Promise(PromiseStatus::Scheduled)) => {}
        other => panic!("unexpected {:?}", other),
    }
    ring.reap(vec![Completion::new(p.get_uuid(), -11, 2)]);
    let c = ring.try_wait(&p).unwrap();
    assert_eq!(c.result(), -11);
    assert_eq!(c.flags(), 2);
    match ring.try_wait(&p) {
        Err(Error::Promise(PromiseStatus::Unregistered)) => {}
        other => panic!("unexpected {:?}", other),
    }
}

#[test]
fn reap_counts_drained_entries() {
    let mut ring = PIoUring::new();
    assert_eq!(ring.reap(Vec::new()), 0);
    assert_eq!(ring.reap(vec![Completion::new(40, 0, 0), Completion::new(41, 0, 0)]), 2);
}

#[test]
fn schedule_promise_reports_reuse() {
    let mut ring = PIoUring::new();
    assert!(ring.schedule_promise(5));
    assert!(!ring.schedule_promise(5));
}
