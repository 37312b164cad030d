use std::sync::Arc;

use vstd::prelude::*;
use vstd::rwlock::RwLock;
use vstd::rwlock::RwLockPredicate;

use crate::completion::Completion;
use crate::pstatus::PromiseStatus;
use crate::registry::tag_space;
use crate::registry::tags_view;
use crate::registry::PromiseRegistry;

verus! {

/// What the lock keeps true of the registry it guards.
pub struct RegistryPred;

impl RwLockPredicate<PromiseRegistry> for RegistryPred {
    open spec fn inv(self, v: PromiseRegistry) -> bool {
        v.wf()
    }
}

/// The shared variant of the registry: a reference-counted handle to a registry behind a
/// read/write lock. Clones share one registry. The lock is held across one map operation
/// only.
///
/// Each operation acts atomically on the registry as it stands when the lock is taken;
/// other threads may act on it before and after. Its contract therefore states that some
/// well-formed registry state was taken by exactly this operation to the next one.
pub struct RegRef {
    lock: Arc<RwLock<PromiseRegistry, RegistryPred>>,
}

impl RegRef {
    #[verifier::type_invariant]
    spec fn inv(self) -> bool {
        self.lock.pred() == RegistryPred
    }

    pub fn clone(&self) -> (r: RegRef) {
        RegRef { lock: Arc::clone(&self.lock) }
    }

    /// The current value of the tag counter.
    pub fn curr_uuid(&self) -> (r: u64)
        ensures
            exists|s: PromiseRegistry| s.wf() && r == s.counter(),
    {
        proof {
            use_type_invariant(self);
        }
        let handle = self.lock.acquire_read();
        let r = handle.borrow().curr_uuid();
        proof {
            let s = handle.view();
            assert(s.wf() && r == s.counter());
        }
        handle.release_read();
        r
    }

    /// Allocates a tag that is neither scheduled nor completed at the moment of the call;
    /// `None` only when all 2^64 tags are live. Which tag comes out depends on what other
    /// threads did before, so no clause pins it.
    pub fn get_uuid(&self) -> (r: Option<u64>)
        ensures
            r is None ==> exists|s: PromiseRegistry| s.wf() && #[trigger] s.live().len() >= tag_space(),
    {
        proof {
            use_type_invariant(self);
        }
        let (mut v, handle) = self.lock.acquire_write();
        let ghost s0 = v;
        let r = v.get_uuid();
        proof {
            if r is None {
                assert(s0.wf() && s0.live().len() >= tag_space());
            }
        }
        handle.release_write(v);
        r
    }

    /// Allocates and schedules `n` fresh tags under one exclusive section, or none at all.
    pub fn schedule_fresh(&self, n: usize) -> (r: Option<Vec<u64>>)
        ensures
            exists|s0: PromiseRegistry, s1: PromiseRegistry|
                s0.wf() && #[trigger] PromiseRegistry::schedules_fresh(s0, n as nat, tags_view(r), s1),
    {
        proof {
            use_type_invariant(self);
        }
        let (mut v, handle) = self.lock.acquire_write();
        let ghost s0 = v;
        let r = v.schedule_fresh(n);
        assert(s0.wf() && PromiseRegistry::schedules_fresh(s0, n as nat, tags_view(r), v));
        handle.release_write(v);
        r
    }

    /// The status of tag `k` at the moment of the call.
    pub fn get_status(&self, k: &u64) -> (r: PromiseStatus)
        ensures
            exists|s: PromiseRegistry| s.wf() && r == #[trigger] s.status_of(*k),
    {
        proof {
            use_type_invariant(self);
        }
        let handle = self.lock.acquire_read();
        let r = handle.borrow().get_status(k);
        proof {
            let s = handle.view();
            assert(s.wf() && r == s.status_of(*k));
        }
        handle.release_read();
        r
    }

    /// Whether a completed entry with this tag waits to be claimed.
    pub fn contains_key(&self, uuid: &u64) -> (r: bool)
        ensures
            exists|s: PromiseRegistry| s.wf() && r == #[trigger] s.completed_map().contains_key(*uuid),
    {
        proof {
            use_type_invariant(self);
        }
        let handle = self.lock.acquire_read();
        let r = handle.borrow().contains_key(uuid);
        proof {
            let s = handle.view();
            assert(s.wf() && r == s.completed_map().contains_key(*uuid));
        }
        handle.release_read();
        r
    }

    /// Claims the completed entry of tag `k`, or fails with the tag's status.
    pub fn remove(&self, k: &u64) -> (r: Result<Completion, PromiseStatus>)
        ensures
            exists|s0: PromiseRegistry, s1: PromiseRegistry|
                s0.wf() && #[trigger] PromiseRegistry::removes(s0, *k, r, s1),
    {
        proof {
            use_type_invariant(self);
        }
        let (mut v, handle) = self.lock.acquire_write();
        let ghost s0 = v;
        let r = v.remove(k);
        assert(s0.wf() && PromiseRegistry::removes(s0, *k, r, v));
        handle.release_write(v);
        r
    }

    /// Marks `user_data` scheduled; `false` if the tag was already live.
    pub fn schedule(&self, user_data: u64) -> (r: bool)
        ensures
            exists|s0: PromiseRegistry, s1: PromiseRegistry|
                s0.wf() && #[trigger] PromiseRegistry::schedules(s0, user_data, r, s1),
    {
        proof {
            use_type_invariant(self);
        }
        let (mut v, handle) = self.lock.acquire_write();
        let ghost s0 = v;
        let r = v.schedule(user_data);
        assert(s0.wf() && PromiseRegistry::schedules(s0, user_data, r, v));
        handle.release_write(v);
        r
    }

    /// Files `entry` as completed under its tag; returns the entry it overwrote.
    pub fn complete(&self, entry: Completion) -> (r: Option<Completion>)
        ensures
            exists|s0: PromiseRegistry, s1: PromiseRegistry|
                s0.wf() && #[trigger] PromiseRegistry::completes(s0, entry, r, s1),
    {
        proof {
            use_type_invariant(self);
        }
        let (mut v, handle) = self.lock.acquire_write();
        let ghost s0 = v;
        let r = v.complete(entry);
        assert(s0.wf() && PromiseRegistry::completes(s0, entry, r, v));
        handle.release_write(v);
        r
    }

    /// Completes every entry of `entries`, in order, under one exclusive section.
    pub fn batch_complete(&self, entries: Vec<Completion>)
        ensures
            exists|s0: PromiseRegistry, s1: PromiseRegistry|
                s0.wf() && #[trigger] PromiseRegistry::batch_completes(s0, entries@, s1),
    {
        proof {
            use_type_invariant(self);
        }
        let ghost es = entries@;
        let (mut v, handle) = self.lock.acquire_write();
        let ghost s0 = v;
        v.batch_complete(entries);
        assert(s0.wf() && PromiseRegistry::batch_completes(s0, es, v));
        handle.release_write(v);
    }

    /// Files a batch of drained completions under one exclusive section and returns how
    /// many there were.
    pub fn reap(&self, drained: Vec<Completion>) -> (r: usize)
        ensures
            r == drained@.len(),
            exists|s0: PromiseRegistry, s1: PromiseRegistry|
                s0.wf() && #[trigger] PromiseRegistry::batch_completes(s0, drained@, s1),
    {
        let reaped = drained.len();
        self.batch_complete(drained);
        reaped
    }

    /// Files `cqe` as completed under `uuid`, which must be its own tag.
    pub fn insert(&self, uuid: u64, cqe: Completion)
        requires
            cqe.user_data == uuid,
        ensures
            exists|s0: PromiseRegistry, s1: PromiseRegistry|
                s0.wf() && #[trigger] PromiseRegistry::inserts(s0, uuid, cqe, s1),
    {
        proof {
            use_type_invariant(self);
        }
        let (mut v, handle) = self.lock.acquire_write();
        let ghost s0 = v;
        v.insert(uuid, cqe);
        assert(s0.wf() && PromiseRegistry::inserts(s0, uuid, cqe, v));
        handle.release_write(v);
    }

    /// Files each `(tag, entry)` pair under one exclusive section; each entry must carry
    /// its pair's tag.
    pub fn extend(&self, entries: Vec<(u64, Completion)>)
        requires
            forall|i: int| 0 <= i < entries@.len() ==> (#[trigger] entries@[i]).1.user_data == entries@[i].0,
        ensures
            exists|s0: PromiseRegistry, s1: PromiseRegistry|
                s0.wf() && #[trigger] PromiseRegistry::extends(s0, entries@, s1),
    {
        proof {
            use_type_invariant(self);
        }
        let ghost es = entries@;
        let (mut v, handle) = self.lock.acquire_write();
        let ghost s0 = v;
        v.extend(entries);
        assert(s0.wf() && PromiseRegistry::extends(s0, es, v));
        handle.release_write(v);
    }
}

/// A new, empty shared registry.
pub fn new_reg_ref() -> (r: RegRef) {
    let reg = PromiseRegistry::new();
    RegRef { lock: Arc::new(RwLock::new(reg, Ghost(RegistryPred))) }
}

} // verus!
