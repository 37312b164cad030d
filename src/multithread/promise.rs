use vstd::prelude::*;

use crate::completion::Completion;
use crate::direct::claim_of;
use crate::error::Error;
use crate::pstatus::PromiseStatus;
use crate::registry::PromiseRegistry;

use super::registry::RegRef;
use super::PIoUring;

verus! {

/// The capability to claim one completion from a thread-owned ring. Queries first ask the
/// ring's owner to reap, through its request channel, and never touch the ring themselves.
#[verifier::reject_recursive_types(S)]
pub struct Promise<S> {
    sender: PIoUring<S>,
    reg_ref: RegRef,
    uuid: u64,
}

impl<S> Promise<S> {
    pub closed spec fn tag(&self) -> u64 {
        self.uuid
    }

    pub fn new(uuid: u64, reg_ref: RegRef, sender: PIoUring<S>) -> (r: Promise<S>)
        ensures
            r.tag() == uuid,
    {
        Promise { sender, reg_ref, uuid }
    }

    pub fn get_uuid(&self) -> (r: u64)
        ensures
            r == self.tag(),
    {
        self.uuid
    }

    /// Asks the ring's owner to drain its completions; `false` if it is gone.
    pub fn trigger_reap(&self) -> (r: bool) {
        self.sender.reap()
    }

    /// Asks for a reap, then reads the promise's status.
    pub fn status(&self) -> (r: PromiseStatus)
        ensures
            exists|s: PromiseRegistry| s.wf() && r == #[trigger] s.status_of(self.tag()),
    {
        self.trigger_reap();
        let r = self.reg_ref.get_status(&self.uuid);
        proof {
            let s = choose|s: PromiseRegistry| s.wf() && r == #[trigger] s.status_of(self.uuid);
            assert(s.wf() && r == s.status_of(self.tag()));
        }
        r
    }

    /// Asks for a reap, then claims the completion entry; before completion fails with
    /// `Error::Promise` carrying the status observed, and the promise stays usable.
    pub fn try_wait(&mut self) -> (r: Result<Completion, Error>)
        ensures
            final(self).tag() == old(self).tag(),
            r is Ok || r matches Err(Error::Promise(_)),
            exists|s0: PromiseRegistry, s1: PromiseRegistry|
                s0.wf() && #[trigger] PromiseRegistry::removes(s0, old(self).tag(), claim_of(r), s1),
    {
        self.trigger_reap();
        let res = self.reg_ref.remove(&self.uuid);
        let r = match res {
            Ok(entry) => Ok(entry),
            Err(status) => Err(Error::from(status)),
        };
        proof {
            let (s0, s1) = choose|s0: PromiseRegistry, s1: PromiseRegistry|
                s0.wf() && #[trigger] PromiseRegistry::removes(s0, self.uuid, res, s1);
            assert(claim_of(r) == res);
            assert(s0.wf() && PromiseRegistry::removes(s0, old(self).tag(), claim_of(r), s1));
        }
        r
    }
}

} // verus!
