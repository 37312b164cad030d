use std::sync::mpsc::channel;

use io_uring_promise::completion::Completion;
use io_uring_promise::error::Error;
use io_uring_promise::multithread::registry::new_reg_ref;
use io_uring_promise::multithread::signal::Signal;
use io_uring_promise::multithread::{after_push, reap_drained, PIoUring, PushStep};
use io_uring_promise::pstatus::PromiseStatus;
use io_uring_promise::psqueue::PSubmissionQueue;

#[test]
fn shared_registry_round_trip() {
    let reg = new_reg_ref();
    let other = reg.clone();
    let t = reg.get_uuid().unwrap();
    assert_eq!(t, 0);
    assert!(reg.schedule(t));
    assert_eq!(other.get_status(&t), PromiseStatus::Scheduled);
    assert_eq!(other.complete(Completion::new(t, 5, 0)), None);
    assert!(reg.contains_key(&t));
    assert_eq!(reg.remove(&t).map(|c| c.result()), Ok(5));
    assert_eq!(reg.remove(&t), Err(PromiseStatus::Unregistered));
    assert_eq!(reg.curr_uuid(), 1);
}

#[test]
fn shared_registry_batch_and_extend() {
    let reg = new_reg_ref();
    reg.batch_complete(vec![Completion::new(1, 0, 0)]);
    reg.insert(2, Completion::new(2, 0, 0));
    reg.extend(vec![(3, Completion::new(3, 0, 0))]);
    assert_eq!(reg.reap(vec![Completion::new(4, 0, 0), Completion::new(5, 0, 0)]), 2);
    for t in 1..6u64 {
        assert_eq!(reg.get_status(&t), PromiseStatus::Completed);
    }
    assert_eq!(reg.schedule_fresh(2), Some(vec![0, 6]));
}

#[test]
fn thread_owned_dispatch_completes_every_promise_once() {
    let (sender, receiver) = channel();
    let reg = new_reg_ref();
    let ring = PIoUring::new(sender, reg.clone());
    let mut promises = Vec::new();
    for i in 0..2000u32 {
        promises.push(ring.submit(i).ok().unwrap());
    }
    let mut drained = Vec::new();
    let mut pushes = 0;
    for signal in receiver.try_iter() {
        match signal {
            Signal::Entry(tag, _) => {
                pushes += 1;
                let pushed = pushes % 3 != 0;
                if !pushed {
                    assert_eq!(after_push(&reg, tag, false), PushStep::DrainAndRetry);
                }
                assert_eq!(after_push(&reg, tag, true), PushStep::Scheduled);
                drained.push(Completion::new(tag, 0, 0));
            }
            Signal::Reap => {}
        }
    }
    assert_eq!(reap_drained(&reg, drained), 2000);
    let mut tags = std::collections::HashSet::new();
    for p in promises.iter_mut() {
        assert_eq!(p.status(), PromiseStatus::Completed);
        let c = p.try_wait().unwrap();
        assert_eq!(c.user_data(), p.get_uuid());
        assert!(tags.insert(c.user_data()));
        match p.try_wait() {
            Err(Error::Promise(PromiseStatus::Unregistered)) => {}
            other => panic!("unexpected {:?}", other),
        }
    }
    assert_eq!(tags.len(), 2000);
}

#[test]
fn submit_fails_once_the_owner_is_gone() {
    let (sender, receiver) = channel::<Signal<u8>>();
    drop(receiver);
    let ring = PIoUring::new(sender, new_reg_ref());
    assert_eq!(ring.submit(7).err(), Some(7));
    assert!(!ring.reap());
    let all = ring.batch_submit(vec![1, 2]);
    assert_eq!(all.len(), 2);
    assert!(all.iter().all(|r| r.is_err()));
}

#[test]
fn reaper_side_queue_hands_out_promises() {
    let sq = PSubmissionQueue::new();
    let reg = sq.get_reg();
    assert_eq!(sq.push('a', true).err(), Some('a'));
    let (p, e) = sq.push('b', false).unwrap();
    assert_eq!(e, 'b');
    assert!(!p.poll());
    assert_eq!(p.status(), PromiseStatus::Scheduled);
    let back = sq.push_multiple(vec!['c', 'd'], 1).err().unwrap();
    assert_eq!(back, vec!['c', 'd']);
    let many = sq.push_multiple(vec!['c', 'd'], 2).unwrap();
    assert_eq!(many.len(), 2);
    assert_ne!(many[0].0.get_uuid(), many[1].0.get_uuid());
    reg.reap(vec![Completion::new(p.get_uuid(), 1, 0)]);
    assert!(p.poll());
    let c = p.try_wait().ok().unwrap();
    assert_eq!(c.result(), 1);
    let (q, _) = many.into_iter().next().unwrap();
    let q = q.try_wait().err().unwrap();
    assert_eq!(q.status(), PromiseStatus::Scheduled);
}
