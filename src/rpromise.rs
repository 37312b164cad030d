use std::sync::Arc;

use vstd::prelude::*;

use crate::completion::Completion;
use crate::cqreaper::RTWaker;
use crate::multithread::registry::RegRef;
use crate::pstatus::PromiseStatus;
use crate::registry::PromiseRegistry;

verus! {

/// The capability to claim one completion from a shared registry that a background
/// reaper fills. When a waker is attached, every query first wakes the reaper.
pub struct RPromise {
    uuid: u64,
    registry: RegRef,
    waker: Option<Arc<RTWaker>>,
}

impl RPromise {
    pub closed spec fn tag(&self) -> u64 {
        self.uuid
    }

    pub fn new(uuid: u64, registry: RegRef, waker: Option<Arc<RTWaker>>) -> (r: RPromise)
        ensures
            r.tag() == uuid,
    {
        RPromise { uuid, registry, waker }
    }

    pub fn get_uuid(&self) -> (r: u64)
        ensures
            r == self.tag(),
    {
        self.uuid
    }

    /// Wakes the reaper, if one is attached.
    pub fn wake(&self) {
        if let Some(waker) = &self.waker {
            waker.wake();
        }
    }

    /// Whether the entry has completed and waits to be claimed.
    pub fn poll(&self) -> (r: bool)
        ensures
            exists|s: PromiseRegistry| s.wf() && r == #[trigger] s.completed_map().contains_key(self.tag()),
    {
        self.wake();
        let r = self.registry.contains_key(&self.uuid);
        proof {
            let s = choose|s: PromiseRegistry| s.wf() && r == #[trigger] s.completed_map().contains_key(self.uuid);
            assert(s.wf() && r == s.completed_map().contains_key(self.tag()));
        }
        r
    }

    pub fn status(&self) -> (r: PromiseStatus)
        ensures
            exists|s: PromiseRegistry| s.wf() && r == #[trigger] s.status_of(self.tag()),
    {
        self.wake();
        let r = self.registry.get_status(&self.uuid);
        proof {
            let s = choose|s: PromiseRegistry| s.wf() && r == #[trigger] s.status_of(self.uuid);
            assert(s.wf() && r == s.status_of(self.tag()));
        }
        r
    }

    /// Claims the completion entry, consuming the promise; before completion the promise
    /// comes back unchanged.
    pub fn try_wait(self) -> (r: Result<Completion, RPromise>)
        ensures
            r matches Err(p) ==> p == self,
            r matches Ok(c) ==> c.user_data == self.tag(),
            r matches Ok(c) ==> exists|s0: PromiseRegistry, s1: PromiseRegistry|
                s0.wf() && #[trigger] PromiseRegistry::removes(s0, self.tag(), Ok::<Completion, PromiseStatus>(c), s1),
    {
        self.wake();
        match self.registry.remove(&self.uuid) {
            Ok(entry) => {
                proof {
                    let (s0, s1) = choose|s0: PromiseRegistry, s1: PromiseRegistry|
                        s0.wf() && #[trigger] PromiseRegistry::removes(s0, self.uuid, Ok::<Completion, PromiseStatus>(entry), s1);
                    assert(s0.wf() && PromiseRegistry::removes(s0, self.tag(), Ok::<Completion, PromiseStatus>(entry), s1));
                }
                Ok(entry)
            },
            Err(_) => Err(self),
        }
    }
}

} // verus!
