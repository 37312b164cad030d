use vstd::prelude::*;

use crate::completion::Completion;
use crate::error::Error;
use crate::promise::Promise;
use crate::pstatus::PromiseStatus;
use crate::registry::tag_space;
use crate::registry::PromiseRegistry;

verus! {

/// What a claim reports, with the not-ready error reduced to the status it carries.
pub open spec fn claim_of(r: Result<Completion, Error>) -> Result<Completion, PromiseStatus> {
    match r {
        Ok(c) => Ok(c),
        Err(Error::Promise(s)) => Err(s),
        Err(_) => Err(PromiseStatus::Unregistered),
    }
}

/// The direct, single-owner dispatcher: the caller holds the ring exclusively for the
/// duration of each call and reports to it what the ring shows (whether the submission side
/// is full, how many slots are free, which completions were drained). It decides which
/// entries are accepted, tags them, and keeps the registry; the caller stamps each accepted
/// entry with its tag and pushes it.
pub struct PIoUring {
    registry: PromiseRegistry,
}

impl PIoUring {
    pub closed spec fn registry(&self) -> PromiseRegistry {
        self.registry
    }

    pub open spec fn wf(&self) -> bool {
        self.registry().wf()
    }

    pub fn new() -> (r: PIoUring)
        ensures
            r.wf(),
            r.registry().completed_map() == Map::<u64, Completion>::empty(),
            r.registry().scheduled_set() == Set::<u64>::empty(),
            r.registry().counter() == 0,
    {
        PIoUring { registry: PromiseRegistry::new() }
    }

    /// Accepts `entry` unless the submission side is full: allocates a fresh tag, marks it
    /// scheduled and hands back the promise with the entry to stamp and push. A full side
    /// (or a tag space with every tag live) gives the entry back unchanged, with no tag
    /// consumed and the registry untouched.
    pub fn push<S>(&mut self, entry: S, sq_full: bool) -> (r: Result<(Promise, S), S>)
        requires
            old(self).wf(),
        ensures
            final(self).wf(),
            r is Err <==> (sq_full || old(self).registry().live().len() >= tag_space()),
            r is Err ==> r == Err::<(Promise, S), S>(entry) && final(self).registry() == old(self).registry(),
            r matches Ok((p, e)) ==> {
                &&& e == entry
                &&& !old(self).registry().live().contains(p.tag())
                &&& exists|mid: PromiseRegistry|
                    #[trigger] PromiseRegistry::allocates(old(self).registry(), p.tag(), mid)
                        && PromiseRegistry::schedules(mid, p.tag(), true, final(self).registry())
            },
    {
        if sq_full {
            return Err(entry);
        }
        let ghost r0 = self.registry;
        match self.registry.get_uuid() {
            None => Err(entry),
            Some(uuid) => {
                let ghost mid = self.registry;
                let fresh = self.schedule_promise(uuid);
                assert(fresh);
                assert(PromiseRegistry::allocates(r0, uuid, mid));
                Ok((Promise::new(uuid), entry))
            },
        }
    }

    /// Marks the tag of a pushed entry scheduled; `false` if it was already live.
    pub fn schedule_promise(&mut self, uuid: u64) -> (r: bool)
        requires
            old(self).wf(),
        ensures
            final(self).wf(),
            PromiseRegistry::schedules(old(self).registry(), uuid, r, final(self).registry()),
    {
        self.registry.schedule(uuid)
    }

    /// All or nothing: with fewer than `entries.len()` free slots on the submission side,
    /// hands every entry back untouched; otherwise accepts each entry as `push` does, in
    /// order, with pairwise distinct fresh tags.
    pub fn push_multiple<S>(&mut self, entries: Vec<S>, free: usize) -> (r: Result<Vec<(Promise, S)>, Vec<S>>)
        requires
            old(self).wf(),
        ensures
            final(self).wf(),
            r is Err <==> (free < entries@.len() || old(self).registry().live().len() + entries@.len() > tag_space()),
            r matches Err(back) ==> back@ == entries@ && final(self).registry() == old(self).registry(),
            r matches Ok(v) ==> {
                &&& v@.len() == entries@.len()
                &&& forall|i: int| 0 <= i < v@.len() ==> (#[trigger] v@[i]).1 == entries@[i]
                &&& forall|i: int| 0 <= i < v@.len() ==> !old(self).registry().live().contains((#[trigger] v@[i]).0.tag())
                &&& forall|i: int, j: int| 0 <= i < j < v@.len() ==> (#[trigger] v@[i]).0.tag() != (#[trigger] v@[j]).0.tag()
                &&& final(self).registry().completed_map() == old(self).registry().completed_map()
                &&& forall|t: u64| #[trigger] final(self).registry().scheduled_set().contains(t) <==> (
                    old(self).registry().scheduled_set().contains(t)
                        || exists|i: int| 0 <= i < v@.len() && (#[trigger] v@[i]).0.tag() == t)
            },
    {
        let n = entries.len();
        let live = self.registry.live_count();
        if free < n || live + (n as u128) > 0x1_0000_0000_0000_0000u128 {
            return Err(entries);
        }
        let ghost r0 = self.registry;
        let ghost es = entries@;
        let mut out: Vec<(Promise, S)> = Vec::new();
        let mut rest = entries;
        while rest.len() > 0
            invariant
                self.wf(),
                out@.len() + rest@.len() == es.len(),
                rest@ == es.subrange(out@.len() as int, es.len() as int),
                forall|i: int| 0 <= i < out@.len() ==> (#[trigger] out@[i]).1 == es[i],
                forall|i: int| 0 <= i < out@.len() ==> !r0.live().contains((#[trigger] out@[i]).0.tag()),
                forall|i: int, j: int| 0 <= i < j < out@.len() ==> (#[trigger] out@[i]).0.tag() != (#[trigger] out@[j]).0.tag(),
                self.registry().completed_map() == r0.completed_map(),
                forall|t: u64| #[trigger] self.registry().scheduled_set().contains(t) <==> (
                    r0.scheduled_set().contains(t) || exists|i: int| 0 <= i < out@.len() && (#[trigger] out@[i]).0.tag() == t),
                self.registry().live().len() == r0.live().len() + out@.len(),
                r0.live().len() + es.len() <= tag_space(),
            decreases rest@.len(),
        {
            let entry = rest.remove(0);
            let ghost before = self.registry;
            let ghost old_out = out@;
            match self.push(entry, false) {
                Ok(accepted) => {
                    let ghost t = accepted.0.tag();
                    proof {
                        assert(!r0.live().contains(t));
                        assert(self.registry().live() == before.live().insert(t));
                        assert forall|i: int| 0 <= i < old_out.len() implies (#[trigger] old_out[i]).0.tag() != t by {
                            assert(before.scheduled_set().contains(old_out[i].0.tag()));
                        }
                    }
                    out.push(accepted);
                    proof {
                        let k = old_out.len() as int;
                        assert(out@ == old_out.push(accepted));
                        assert(out@[k] == accepted);
                        assert forall|u: u64| #[trigger] self.registry().scheduled_set().contains(u) <==> (
                            r0.scheduled_set().contains(u) || exists|i: int| 0 <= i < out@.len() && (#[trigger] out@[i]).0.tag() == u) by {
                            if u == t {
                                assert(out@[k].0.tag() == u);
                            } else {
                                assert(self.registry().scheduled_set().contains(u) == before.scheduled_set().contains(u));
                                if before.scheduled_set().contains(u) && !r0.scheduled_set().contains(u) {
                                    let i = choose|i: int| 0 <= i < old_out.len() && (#[trigger] old_out[i]).0.tag() == u;
                                    assert(out@[i] == old_out[i]);
                                }
                                if exists|i: int| 0 <= i < out@.len() && (#[trigger] out@[i]).0.tag() == u {
                                    let i = choose|i: int| 0 <= i < out@.len() && (#[trigger] out@[i]).0.tag() == u;
                                    assert(i < k);
                                    assert(old_out[i] == out@[i]);
                                    assert(exists|j: int| 0 <= j < old_out.len() && (#[trigger] old_out[j]).0.tag() == u);
                                }
                            }
                        }
                    }
                },
                Err(_) => {
                    proof {
                        assert(false);
                    }
                },
            }
        }
        Ok(out)
    }

    /// Files the completions drained from the ring and returns how many there were.
    pub fn reap(&mut self, drained: Vec<Completion>) -> (r: usize)
        requires
            old(self).wf(),
        ensures
            final(self).wf(),
            r == drained@.len(),
            PromiseRegistry::batch_completes(old(self).registry(), drained@, final(self).registry()),
    {
        let reaped = drained.len();
        self.registry.batch_complete(drained);
        reaped
    }

    /// Whether the promise's entry has completed and waits to be claimed.
    pub fn poll(&self, promise: &Promise) -> (r: bool)
        ensures
            r == self.registry().completed_map().contains_key(promise.tag()),
    {
        self.registry.contains_key(&promise.get_uuid())
    }

    pub fn status(&self, promise: &Promise) -> (r: PromiseStatus)
        ensures
            r == self.registry().status_of(promise.tag()),
    {
        self.registry.get_status(&promise.get_uuid())
    }

    /// Claims the promise's completion entry; before completion fails with
    /// `Error::Promise` carrying the status observed, and the promise stays usable.
    pub fn try_wait(&mut self, promise: &Promise) -> (r: Result<Completion, Error>)
        requires
            old(self).wf(),
        ensures
            final(self).wf(),
            r is Ok || r matches Err(Error::Promise(_)),
            PromiseRegistry::removes(old(self).registry(), promise.tag(), claim_of(r), final(self).registry()),
    {
        match self.registry.remove(&promise.get_uuid()) {
            Ok(entry) => Ok(entry),
            Err(status) => Err(Error::from(status)),
        }
    }
}

} // verus!
