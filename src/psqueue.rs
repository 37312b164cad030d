use std::sync::Arc;

use vstd::prelude::*;

use crate::cqreaper::RTWaker;
use crate::multithread::registry::RegRef;
use crate::registry::PromiseRegistry;
use crate::rpromise::RPromise;

verus! {

/// The submission side of a split ring, as far as promises go: its owner reports whether
/// the side is full or how many slots are free, and this decides which entries are
/// accepted and tags them against the shared registry that a background reaper fills. The
/// owner stamps each accepted entry with its tag and pushes it. With a waker attached, the
/// promises it hands out wake the reaper.
pub struct PSubmissionQueue {
    registry: RegRef,
    waker: Option<Arc<RTWaker>>,
}

impl PSubmissionQueue {
    /// Accepts entries against a new, empty registry.
    pub fn new() -> (r: PSubmissionQueue) {
        PSubmissionQueue { registry: crate::multithread::registry::new_reg_ref(), waker: None }
    }

    /// Accepts entries against `registry`.
    pub fn new_with_reg(registry: RegRef) -> (r: PSubmissionQueue) {
        PSubmissionQueue { registry, waker: None }
    }

    /// Accepts entries against `registry`; its promises wake the reaper through `waker`.
    pub fn new_with_waker(registry: RegRef, waker: Arc<RTWaker>) -> (r: PSubmissionQueue) {
        PSubmissionQueue { registry, waker: Some(waker) }
    }

    pub fn get_reg(&self) -> (r: RegRef) {
        self.registry.clone()
    }

    /// Allocates a fresh tag, marks it scheduled, and returns the promise for it; `None`
    /// when no tag is free.
    fn accept(&self) -> (r: Option<RPromise>) {
        match self.registry.get_uuid() {
            None => None,
            Some(uuid) => {
                self.registry.schedule(uuid);
                Some(RPromise::new(uuid, self.registry.clone(), self.waker_clone()))
            },
        }
    }

    /// Accepts `entry` unless the submission side is full; a full side, or a tag space with
    /// every tag live, gives the entry back unchanged and consumes no tag.
    pub fn push<S>(&self, entry: S, sq_full: bool) -> (r: Result<(RPromise, S), S>)
        ensures
            sq_full ==> r == Err::<(RPromise, S), S>(entry),
            r matches Err(e) ==> e == entry,
            r matches Ok((p, e)) ==> e == entry,
    {
        if sq_full {
            return Err(entry);
        }
        match self.accept() {
            None => Err(entry),
            Some(p) => Ok((p, entry)),
        }
    }

    /// All or nothing: with fewer than `entries.len()` free slots, or fewer free tags,
    /// hands every entry back untouched; otherwise allocates and schedules one fresh tag per
    /// entry under one exclusive section and accepts the entries in order.
    pub fn push_multiple<S>(&self, entries: Vec<S>, free: usize) -> (r: Result<Vec<(RPromise, S)>, Vec<S>>)
        ensures
            free < entries@.len() ==> r == Err::<Vec<(RPromise, S)>, Vec<S>>(entries),
            r matches Err(back) ==> back@ == entries@,
            r matches Ok(v) ==> {
                &&& v@.len() == entries@.len()
                &&& forall|i: int| 0 <= i < v@.len() ==> (#[trigger] v@[i]).1 == entries@[i]
                &&& exists|s0: PromiseRegistry, tags: Seq<u64>, s1: PromiseRegistry|
                    s0.wf() && #[trigger] PromiseRegistry::schedules_fresh(s0, entries@.len(), Some(tags), s1)
                        && forall|i: int| 0 <= i < v@.len() ==> (#[trigger] v@[i]).0.tag() == tags[i]
            },
    {
        let n = entries.len();
        if free < n {
            return Err(entries);
        }
        let tags = match self.registry.schedule_fresh(n) {
            None => {
                return Err(entries);
            },
            Some(tags) => tags,
        };
        let ghost (s0, s1) = choose|s0: PromiseRegistry, s1: PromiseRegistry|
            s0.wf() && #[trigger] PromiseRegistry::schedules_fresh(s0, n as nat, Some(tags@), s1);
        let ghost es = entries@;
        let mut out: Vec<(RPromise, S)> = Vec::new();
        let mut rest = entries;
        while rest.len() > 0
            invariant
                tags@.len() == es.len(),
                out@.len() + rest@.len() == es.len(),
                rest@ == es.subrange(out@.len() as int, es.len() as int),
                forall|i: int| 0 <= i < out@.len() ==> (#[trigger] out@[i]).1 == es[i],
                forall|i: int| 0 <= i < out@.len() ==> (#[trigger] out@[i]).0.tag() == tags@[i],
            decreases rest@.len(),
        {
            let k = out.len();
            let entry = rest.remove(0);
            let p = RPromise::new(tags[k], self.registry.clone(), self.waker_clone());
            out.push((p, entry));
            assert(out@[k as int].1 == es[k as int]);
        }
        assert(s0.wf() && PromiseRegistry::schedules_fresh(s0, es.len(), Some(tags@), s1));
        Ok(out)
    }

    fn waker_clone(&self) -> (r: Option<Arc<RTWaker>>) {
        match &self.waker {
            Some(w) => Some(Arc::clone(w)),
            None => None,
        }
    }
}

} // verus!
