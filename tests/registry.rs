use io_uring_promise::completion::Completion;
use io_uring_promise::pstatus::PromiseStatus;
use io_uring_promise::registry::PromiseRegistry;

fn entry(tag: u64) -> Completion {
    Completion::new(tag, 0, 0)
}

#[test]
fn fresh_registry_allocates_from_zero() {
    let mut reg = PromiseRegistry::new();
    assert_eq!(reg.curr_uuid(), 0);
    assert_eq!(reg.next_uuid(), 0);
    assert_eq!(reg.next_uuid(), 1);
    assert_eq!(reg.curr_uuid(), 2);
}

#[test]
fn allocation_skips_live_tags() {
    let mut reg = PromiseRegistry::new();
    assert!(reg.schedule(0));
    reg.complete(entry(1));
    assert!(reg.schedule(3));
    assert_eq!(reg.next_uuid(), 2);
    assert_eq!(reg.next_uuid(), 4);
    assert_eq!(reg.curr_uuid(), 5);
}

#[test]
fn allocated_and_scheduled_tags_are_distinct() {
    let mut reg = PromiseRegistry::new();
    let mut seen = std::collections::HashSet::new();
    for _ in 0..500 {
        let t = reg.next_uuid();
        assert!(reg.schedule(t));
        assert!(seen.insert(t));
    }
    assert_eq!(seen.len(), 500);
    assert_eq!(reg.live_count(), 500);
}

#[test]
fn claim_succeeds_exactly_once() {
    let mut reg = PromiseRegistry::new();
    let t = reg.next_uuid();
    reg.schedule(t);
    let e = Completion::new(t, 32, 0);
    assert_eq!(reg.complete(e), None);
    assert_eq!(reg.remove(&t), Ok(e));
    assert_eq!(reg.remove(&t), Err(PromiseStatus::Unregistered));
}

#[test]
fn remove_before_completion_reports_status() {
    let mut reg = PromiseRegistry::new();
    reg.schedule(7);
    assert_eq!(reg.remove(&7), Err(PromiseStatus::Scheduled));
    assert_eq!(reg.remove(&8), Err(PromiseStatus::Unregistered));
    assert_eq!(reg.get_status(&7), PromiseStatus::Scheduled);
}

#[test]
fn status_only_moves_forward() {
    let mut reg = PromiseRegistry::new();
    assert_eq!(reg.get_status(&5), PromiseStatus::Unregistered);
    assert!(reg.schedule(5));
    assert_eq!(reg.get_status(&5), PromiseStatus::Scheduled);
    reg.batch_complete(vec![entry(4), entry(5)]);
    assert_eq!(reg.get_status(&5), PromiseStatus::Completed);
    assert!(!reg.schedule(5));
    assert_eq!(reg.get_status(&5), PromiseStatus::Completed);
    assert!(!reg.unschedule(&5));
    assert_eq!(reg.get_status(&5), PromiseStatus::Completed);
    assert!(reg.remove(&5).is_ok());
    assert_eq!(reg.get_status(&5), PromiseStatus::Unregistered);
}

#[test]
fn schedule_twice_reports_reuse() {
    let mut reg = PromiseRegistry::new();
    assert!(reg.schedule(9));
    assert!(!reg.schedule(9));
    assert!(reg.unschedule(&9));
    assert!(!reg.unschedule(&9));
    assert_eq!(reg.get_status(&9), PromiseStatus::Unregistered);
}

#[test]
fn complete_returns_overwritten_entry() {
    let mut reg = PromiseRegistry::new();
    let first = Completion::new(3, 1, 0);
    let second = Completion::new(3, 2, 0);
    assert_eq!(reg.complete(first), None);
    assert_eq!(reg.complete(second), Some(first));
    assert_eq!(reg.remove(&3), Ok(second));
}

#[test]
fn batch_complete_files_every_tag() {
    let mut reg = PromiseRegistry::new();
    for t in 0..4u64 {
        reg.schedule(t);
    }
    reg.batch_complete(vec![entry(0), entry(2), entry(3)]);
    assert_eq!(reg.get_status(&0), PromiseStatus::Completed);
    assert_eq!(reg.get_status(&1), PromiseStatus::Scheduled);
    assert_eq!(reg.get_status(&2), PromiseStatus::Completed);
    assert_eq!(reg.get_status(&3), PromiseStatus::Completed);
    assert_eq!(reg.live_count(), 4);
}

#[test]
fn batch_complete_of_nothing_changes_nothing() {
    let mut reg = PromiseRegistry::new();
    reg.schedule(1);
    reg.batch_complete(Vec::new());
    assert_eq!(reg.get_status(&1), PromiseStatus::Scheduled);
    assert_eq!(reg.live_count(), 1);
}

#[test]
fn insert_and_extend_file_entries() {
    let mut reg = PromiseRegistry::new();
    reg.schedule(1);
    reg.insert(1, entry(1));
    assert!(reg.contains_key(&1));
    assert_eq!(reg.get_status(&1), PromiseStatus::Completed);
    reg.extend(vec![(2, entry(2)), (3, entry(3))]);
    assert!(reg.contains_key(&2));
    assert!(reg.contains_key(&3));
    assert!(!reg.contains_key(&4));
    assert_eq!(reg.live_count(), 3);
}

#[test]
fn get_uuid_allocates_like_next_uuid() {
    let mut reg = PromiseRegistry::new();
    reg.schedule(0);
    assert_eq!(reg.get_uuid(), Some(1));
    assert_eq!(reg.curr_uuid(), 2);
}

#[test]
fn schedule_fresh_is_all_or_nothing() {
    let mut reg = PromiseRegistry::new();
    reg.schedule(1);
    let tags = reg.schedule_fresh(3).unwrap();
    assert_eq!(tags, vec![0, 2, 3]);
    for t in &tags {
        assert_eq!(reg.get_status(t), PromiseStatus::Scheduled);
    }
    assert_eq!(reg.live_count(), 4);
    assert_eq!(reg.schedule_fresh(0), Some(Vec::new()));
}

#[test]
fn allocations_without_scheduling_are_distinct() {
    let mut reg = PromiseRegistry::new();
    reg.complete(entry(1));
    let a = reg.next_uuid();
    reg.complete(entry(3));
    let b = reg.next_uuid();
    let c = reg.next_uuid();
    assert_eq!((a, b, c), (0, 2, 4));
}
