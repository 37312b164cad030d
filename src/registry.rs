use std::collections::BTreeMap;
use std::collections::BTreeSet;

use vstd::prelude::*;
use vstd::set_lib::lemma_int_range;
use vstd::set_lib::lemma_len_subset;
use vstd::set_lib::lemma_len_union;
use vstd::set_lib::lemma_map_size_bound;
use vstd::set_lib::lemma_set_disjoint_lens;
use vstd::set_lib::set_int_range;

use crate::completion::Completion;
use crate::pstatus::PromiseStatus;

verus! {

/// Number of distinct 64-bit tags.
pub open spec fn tag_space() -> int {
    0x1_0000_0000_0000_0000
}

/// How far `b` lies ahead of `a` when counting upwards with wraparound.
pub open spec fn tag_dist(a: u64, b: u64) -> int {
    if b >= a {
        b - a
    } else {
        b + tag_space() - a
    }
}

/// The status of tag `t` given the completed entries and the scheduled tags.
pub open spec fn status_in(completed: Map<u64, Completion>, scheduled: Set<u64>, t: u64) -> PromiseStatus {
    if completed.contains_key(t) {
        PromiseStatus::Completed
    } else if scheduled.contains(t) {
        PromiseStatus::Scheduled
    } else {
        PromiseStatus::Unregistered
    }
}

/// Every completed entry is filed under its own tag.
pub open spec fn filed_by_tag(completed: Map<u64, Completion>) -> bool {
    forall|k: u64| #[trigger] completed.contains_key(k) ==> completed[k].user_data == k
}

/// The completed map after filing each entry of `entries` under its tag, in order.
pub open spec fn complete_all(completed: Map<u64, Completion>, entries: Seq<Completion>) -> Map<u64, Completion>
    decreases entries.len(),
{
    if entries.len() == 0 {
        completed
    } else {
        complete_all(completed, entries.drop_last()).insert(entries.last().user_data, entries.last())
    }
}

/// The completed map after inserting each `(tag, entry)` pair of `pairs`, in order.
pub open spec fn insert_all(completed: Map<u64, Completion>, pairs: Seq<(u64, Completion)>) -> Map<u64, Completion>
    decreases pairs.len(),
{
    if pairs.len() == 0 {
        completed
    } else {
        insert_all(completed, pairs.drop_last()).insert(pairs.last().0, pairs.last().1)
    }
}

/// The tags carried by a sequence of completion entries.
pub open spec fn tags_of(entries: Seq<Completion>) -> Set<u64> {
    Set::new(|t: u64| exists|i: int| 0 <= i < entries.len() && #[trigger] entries[i].user_data == t)
}

/// The tags held by an optional vector, as a sequence.
pub open spec fn tags_view(r: Option<Vec<u64>>) -> Option<Seq<u64>> {
    match r {
        Some(v) => Some(v@),
        None => None,
    }
}

/// The tags of a sequence of `(tag, entry)` pairs.
pub open spec fn pair_tags(pairs: Seq<(u64, Completion)>) -> Set<u64> {
    Set::new(|t: u64| exists|i: int| 0 <= i < pairs.len() && #[trigger] pairs[i].0 == t)
}

/// The state store of promises: which tags are scheduled, and the completion entries
/// that have arrived and not been claimed yet, together with the tag counter.
///
/// This is the exclusive variant: it is touched through `&mut` by a single owner.
pub struct PromiseRegistry {
    completed: BTreeMap<u64, Completion>,
    scheduled: BTreeSet<u64>,
    curr_uuid: u64,
}

impl PromiseRegistry {
    /// Completed and not yet claimed entries, by tag.
    pub closed spec fn completed_map(&self) -> Map<u64, Completion> {
        self.completed@
    }

    /// Tags that were scheduled and have not completed.
    pub closed spec fn scheduled_set(&self) -> Set<u64> {
        self.scheduled@
    }

    /// The next candidate tag of the allocator.
    pub closed spec fn counter(&self) -> u64 {
        self.curr_uuid
    }

    pub open spec fn status_of(&self, t: u64) -> PromiseStatus {
        status_in(self.completed_map(), self.scheduled_set(), t)
    }

    /// Tags that denote a scheduled or a completed-but-unclaimed entry.
    pub open spec fn live(&self) -> Set<u64> {
        self.completed_map().dom().union(self.scheduled_set())
    }

    pub open spec fn wf(&self) -> bool {
        &&& self.completed_map().dom().finite()
        &&& self.scheduled_set().finite()
        &&& filed_by_tag(self.completed_map())
        &&& self.completed_map().dom().disjoint(self.scheduled_set())
    }

    /// `r1` is `r0` with only the counter possibly changed.
    pub open spec fn same_entries(r0: PromiseRegistry, r1: PromiseRegistry) -> bool {
        &&& r1.completed_map() == r0.completed_map()
        &&& r1.scheduled_set() == r0.scheduled_set()
    }

    /// `schedule(t)` took `r0` to `r1` and returned `fresh`: a completed tag stays completed.
    pub open spec fn schedules(r0: PromiseRegistry, t: u64, fresh: bool, r1: PromiseRegistry) -> bool {
        &&& fresh == !r0.live().contains(t)
        &&& r1.scheduled_set() == (if r0.completed_map().contains_key(t) {
            r0.scheduled_set()
        } else {
            r0.scheduled_set().insert(t)
        })
        &&& r1.completed_map() == r0.completed_map()
        &&& r1.counter() == r0.counter()
    }

    /// `complete(entry)` took `r0` to `r1` and returned `prev`.
    pub open spec fn completes(r0: PromiseRegistry, entry: Completion, prev: Option<Completion>, r1: PromiseRegistry) -> bool {
        let t = entry.user_data;
        &&& r1.scheduled_set() == r0.scheduled_set().remove(t)
        &&& r1.completed_map() == r0.completed_map().insert(t, entry)
        &&& r1.counter() == r0.counter()
        &&& prev == (if r0.completed_map().contains_key(t) {
            Some(r0.completed_map()[t])
        } else {
            None
        })
    }

    /// `batch_complete(entries)` took `r0` to `r1`.
    pub open spec fn batch_completes(r0: PromiseRegistry, entries: Seq<Completion>, r1: PromiseRegistry) -> bool {
        &&& r1.scheduled_set() == r0.scheduled_set().difference(tags_of(entries))
        &&& r1.completed_map() == complete_all(r0.completed_map(), entries)
        &&& r1.counter() == r0.counter()
    }

    /// `unschedule(t)` took `r0` to `r1` and returned `found`.
    pub open spec fn unschedules(r0: PromiseRegistry, t: u64, found: bool, r1: PromiseRegistry) -> bool {
        &&& found == r0.scheduled_set().contains(t)
        &&& r1.scheduled_set() == r0.scheduled_set().remove(t)
        &&& r1.completed_map() == r0.completed_map()
        &&& r1.counter() == r0.counter()
    }

    /// `insert(t, entry)` took `r0` to `r1`.
    pub open spec fn inserts(r0: PromiseRegistry, t: u64, entry: Completion, r1: PromiseRegistry) -> bool {
        &&& r1.completed_map() == r0.completed_map().insert(t, entry)
        &&& r1.scheduled_set() == r0.scheduled_set().remove(t)
        &&& r1.counter() == r0.counter()
    }

    /// `extend(pairs)` took `r0` to `r1`.
    pub open spec fn extends(r0: PromiseRegistry, pairs: Seq<(u64, Completion)>, r1: PromiseRegistry) -> bool {
        &&& r1.completed_map() == insert_all(r0.completed_map(), pairs)
        &&& r1.scheduled_set() == r0.scheduled_set().difference(pair_tags(pairs))
        &&& r1.counter() == r0.counter()
    }

    /// `remove(t)` took `r0` to `r1` and returned `res`.
    pub open spec fn removes(r0: PromiseRegistry, t: u64, res: Result<Completion, PromiseStatus>, r1: PromiseRegistry) -> bool {
        if r0.completed_map().contains_key(t) {
            &&& res == Ok::<Completion, PromiseStatus>(r0.completed_map()[t])
            &&& r1.completed_map() == r0.completed_map().remove(t)
            &&& r1.scheduled_set() == r0.scheduled_set()
            &&& r1.counter() == r0.counter()
        } else {
            &&& res == Err::<Completion, PromiseStatus>(r0.status_of(t))
            &&& PromiseRegistry::same_entries(r0, r1)
            &&& r1.counter() == r0.counter()
        }
    }

    /// `next_uuid()` took `r0` to `r1` and returned `t`: `t` is the first tag at or after
    /// the counter, counting with wraparound, that is not live, and the counter moves past it.
    pub open spec fn allocates(r0: PromiseRegistry, t: u64, r1: PromiseRegistry) -> bool {
        &&& !r0.live().contains(t)
        &&& forall|u: u64| tag_dist(r0.counter(), u) < tag_dist(r0.counter(), t) ==> #[trigger] r0.live().contains(u)
        &&& r1.counter() == t.wrapping_add(1)
        &&& PromiseRegistry::same_entries(r0, r1)
    }

    /// `schedule_fresh(n)` took `r0` to `r1` and returned `res`: all or nothing, `n` tags
    /// that were not live, pairwise distinct, allocated and scheduled in order.
    pub open spec fn schedules_fresh(r0: PromiseRegistry, n: nat, res: Option<Seq<u64>>, r1: PromiseRegistry) -> bool {
        match res {
            None => {
                &&& r0.live().len() + n > tag_space()
                &&& r1 == r0
            },
            Some(tags) => {
                &&& r0.live().len() + n <= tag_space()
                &&& tags.len() == n
                &&& tags.no_duplicates()
                &&& forall|i: int| 0 <= i < tags.len() ==> !r0.live().contains(#[trigger] tags[i])
                &&& r1.completed_map() == r0.completed_map()
                &&& r1.scheduled_set() == r0.scheduled_set().union(tags.to_set())
            },
        }
    }

    pub fn new() -> (r: PromiseRegistry)
        ensures
            r.wf(),
            r.completed_map() == Map::<u64, Completion>::empty(),
            r.scheduled_set() == Set::<u64>::empty(),
            r.counter() == 0,
    {
        PromiseRegistry { completed: BTreeMap::new(), scheduled: BTreeSet::new(), curr_uuid: 0 }
    }

    pub fn curr_uuid(&self) -> (r: u64)
        ensures
            r == self.counter(),
    {
        self.curr_uuid
    }

    fn incr_uuid(&mut self) -> (r: u64)
        ensures
            r == old(self).counter(),
            final(self).counter() == old(self).counter().wrapping_add(1),
            PromiseRegistry::same_entries(*old(self), *final(self)),
    {
        let out = self.curr_uuid;
        self.curr_uuid = self.curr_uuid.wrapping_add(1);
        out
    }

    /// Allocates a tag that is neither scheduled nor completed: probes upwards from the
    /// counter, with wraparound. Terminates because fewer than 2^64 tags are live.
    pub fn next_uuid(&mut self) -> (r: u64)
        requires
            old(self).wf(),
            old(self).live().len() < tag_space(),
        ensures
            final(self).wf(),
            PromiseRegistry::allocates(*old(self), r, *final(self)),
    {
        let ghost start = self.curr_uuid;
        let ghost live = self.live();
        proof {
            lemma_len_union(self.completed_map().dom(), self.scheduled_set());
            lemma_free_tag_exists(live);
        }
        let ghost free = choose|t: u64| !live.contains(t);
        loop
            invariant
                self.wf(),
                PromiseRegistry::same_entries(*old(self), *self),
                self.live() == live,
                live == old(self).live(),
                start == old(self).counter(),
                !live.contains(free),
                tag_dist(start, self.counter()) <= tag_dist(start, free),
                forall|u: u64| tag_dist(start, u) < tag_dist(start, self.counter()) ==> #[trigger] live.contains(u),
            decreases tag_dist(start, free) - tag_dist(start, self.counter()),
        {
            let id = self.incr_uuid();
            if matches!(self.get_status(&id), PromiseStatus::Unregistered) {
                return id;
            }
            assert(live.contains(id));
            assert(tag_dist(start, id) < tag_dist(start, free));
        }
    }

    /// How many tags are live.
    pub fn live_count(&self) -> (r: u128)
        requires
            self.wf(),
        ensures
            r == self.live().len(),
            r <= 2 * (usize::MAX as int),
    {
        proof {
            lemma_set_disjoint_lens(self.completed_map().dom(), self.scheduled_set());
        }
        self.completed.len() as u128 + self.scheduled.len() as u128
    }

    /// Allocates as `next_uuid` does when fewer than 2^64 tags are live; `None`, with the
    /// registry unchanged, when every tag is live.
    pub fn get_uuid(&mut self) -> (r: Option<u64>)
        requires
            old(self).wf(),
        ensures
            final(self).wf(),
            r is None <==> old(self).live().len() >= tag_space(),
            r matches Some(t) ==> PromiseRegistry::allocates(*old(self), t, *final(self)),
            r is None ==> *final(self) == *old(self),
    {
        let live = self.live_count();
        if live < 0x1_0000_0000_0000_0000u128 {
            Some(self.next_uuid())
        } else {
            None
        }
    }

    /// Allocates and schedules `n` fresh tags under one call, or none at all when fewer
    /// than `n` tags are free.
    pub fn schedule_fresh(&mut self, n: usize) -> (r: Option<Vec<u64>>)
        requires
            old(self).wf(),
        ensures
            final(self).wf(),
            PromiseRegistry::schedules_fresh(*old(self), n as nat, tags_view(r), *final(self)),
    {
        let live = self.live_count();
        if live + (n as u128) > 0x1_0000_0000_0000_0000u128 {
            return None;
        }
        let ghost r0 = *self;
        let mut tags: Vec<u64> = Vec::new();
        let mut i: usize = 0;
        while i < n
            invariant
                self.wf(),
                i <= n,
                tags@.len() == i,
                tags@.no_duplicates(),
                forall|j: int| 0 <= j < tags@.len() ==> !r0.live().contains(#[trigger] tags@[j]),
                self.completed_map() == r0.completed_map(),
                self.scheduled_set() == r0.scheduled_set().union(tags@.to_set()),
                self.live().len() == r0.live().len() + i,
                r0.live().len() + n <= tag_space(),
            decreases n - i,
        {
            let ghost before = *self;
            proof {
                assert(self.live() == r0.live().union(tags@.to_set()));
            }
            let t = self.next_uuid();
            self.schedule(t);
            proof {
                assert forall|j: int| 0 <= j < tags@.len() implies tags@[j] != t by {
                    assert(tags@.to_set().contains(tags@[j]));
                }
                assert(!r0.live().contains(t));
                tags@.lemma_push_to_set_commute(t);
                assert(self.live() == before.live().insert(t));
            }
            tags.push(t);
            i = i + 1;
        }
        Some(tags)
    }

    pub fn get_status(&self, k: &u64) -> (r: PromiseStatus)
        ensures
            r == self.status_of(*k),
    {
        if self.completed.contains_key(k) {
            PromiseStatus::Completed
        } else if self.scheduled.contains(k) {
            PromiseStatus::Scheduled
        } else {
            PromiseStatus::Unregistered
        }
    }

    /// Whether a completed entry with this tag waits to be claimed.
    pub fn contains_key(&self, uuid: &u64) -> (r: bool)
        ensures
            r == self.completed_map().contains_key(*uuid),
    {
        self.completed.contains_key(uuid)
    }

    /// Claims the completed entry of tag `k`; when there is none, fails with the tag's
    /// current status and leaves the registry as it was.
    pub fn remove(&mut self, k: &u64) -> (r: Result<Completion, PromiseStatus>)
        requires
            old(self).wf(),
        ensures
            final(self).wf(),
            PromiseRegistry::removes(*old(self), *k, r, *final(self)),
    {
        if let Some(entry) = self.completed.remove(k) {
            Ok(entry)
        } else {
            assert(self.completed@ =~= old(self).completed@);
            Err(self.get_status(k))
        }
    }

    /// Marks `user_data` scheduled; returns `false` if the tag was already scheduled or
    /// completed, which signals a tag reused while still live. A completed tag stays completed.
    pub fn schedule(&mut self, user_data: u64) -> (r: bool)
        requires
            old(self).wf(),
        ensures
            final(self).wf(),
            PromiseRegistry::schedules(*old(self), user_data, r, *final(self)),
    {
        if self.completed.contains_key(&user_data) {
            false
        } else {
            self.scheduled.insert(user_data)
        }
    }

    /// Withdraws `user_data` from the scheduled tags; returns whether it was there.
    pub fn unschedule(&mut self, user_data: &u64) -> (r: bool)
        requires
            old(self).wf(),
        ensures
            final(self).wf(),
            PromiseRegistry::unschedules(*old(self), *user_data, r, *final(self)),
    {
        self.scheduled.remove(user_data)
    }

    fn extract_user_data(entry: Completion) -> (r: (u64, Completion))
        ensures
            r == (entry.user_data, entry),
    {
        let user_data = entry.user_data();
        (user_data, entry)
    }

    /// Files `entry` as completed under its tag and withdraws the tag from the scheduled
    /// ones; returns the entry it overwrote, if any.
    pub fn complete(&mut self, entry: Completion) -> (r: Option<Completion>)
        requires
            old(self).wf(),
        ensures
            final(self).wf(),
            PromiseRegistry::completes(*old(self), entry, r, *final(self)),
    {
        let (user_data, entry) = Self::extract_user_data(entry);
        self.unschedule(&user_data);
        self.completed.insert(user_data, entry)
    }

    /// Completes every entry of `entries`, in order.
    pub fn batch_complete(&mut self, entries: Vec<Completion>)
        requires
            old(self).wf(),
        ensures
            final(self).wf(),
            PromiseRegistry::batch_completes(*old(self), entries@, *final(self)),
    {
        let ghost s = entries@;
        let mut i: usize = 0;
        while i < entries.len()
            invariant
                self.wf(),
                entries@ == s,
                i <= s.len(),
                self.counter() == old(self).counter(),
                self.scheduled_set() == old(self).scheduled_set().difference(tags_of(s.take(i as int))),
                self.completed_map() == complete_all(old(self).completed_map(), s.take(i as int)),
            decreases s.len() - i,
        {
            let (user_data, entry) = Self::extract_user_data(entries[i]);
            self.scheduled.remove(&user_data);
            self.completed.insert(user_data, entry);
            proof {
                let p = s.take(i as int);
                let q = s.take(i + 1);
                assert(q.drop_last() == p);
                assert(tags_of(q) == tags_of(p).insert(user_data)) by {
                    assert forall|t: u64| tags_of(q).contains(t) implies tags_of(p).insert(user_data).contains(t) by {
                        let j = choose|j: int| 0 <= j < q.len() && q[j].user_data == t;
                        if j < i {
                            assert(p[j] == q[j]);
                        }
                    }
                    assert forall|t: u64| tags_of(p).insert(user_data).contains(t) implies tags_of(q).contains(t) by {
                        if t == user_data {
                            assert(q[i as int].user_data == t);
                        } else {
                            let j = choose|j: int| 0 <= j < p.len() && p[j].user_data == t;
                            assert(q[j] == p[j]);
                        }
                    }
                }
                assert(self.scheduled_set() == old(self).scheduled_set().difference(tags_of(q)));
            }
            i = i + 1;
        }
        assert(s.take(s.len() as int) == s);
    }

    /// Files `cqe` as completed under `uuid`, which must be its own tag.
    pub fn insert(&mut self, uuid: u64, cqe: Completion)
        requires
            old(self).wf(),
            cqe.user_data == uuid,
        ensures
            final(self).wf(),
            PromiseRegistry::inserts(*old(self), uuid, cqe, *final(self)),
    {
        self.scheduled.remove(&uuid);
        self.completed.insert(uuid, cqe);
    }

    /// Files each `(tag, entry)` pair, in order; each entry must carry its pair's tag.
    pub fn extend(&mut self, entries: Vec<(u64, Completion)>)
        requires
            old(self).wf(),
            forall|i: int| 0 <= i < entries@.len() ==> (#[trigger] entries@[i]).1.user_data == entries@[i].0,
        ensures
            final(self).wf(),
            PromiseRegistry::extends(*old(self), entries@, *final(self)),
    {
        let ghost s = entries@;
        let mut i: usize = 0;
        while i < entries.len()
            invariant
                self.wf(),
                entries@ == s,
                i <= s.len(),
                forall|j: int| 0 <= j < s.len() ==> (#[trigger] s[j]).1.user_data == s[j].0,
                self.counter() == old(self).counter(),
                self.scheduled_set() == old(self).scheduled_set().difference(pair_tags(s.take(i as int))),
                self.completed_map() == insert_all(old(self).completed_map(), s.take(i as int)),
            decreases s.len() - i,
        {
            let (uuid, cqe) = entries[i];
            self.insert(uuid, cqe);
            proof {
                let p = s.take(i as int);
                let q = s.take(i + 1);
                assert(q.drop_last() == p);
                assert(pair_tags(q) == pair_tags(p).insert(uuid)) by {
                    assert forall|t: u64| pair_tags(q).contains(t) implies pair_tags(p).insert(uuid).contains(t) by {
                        let j = choose|j: int| 0 <= j < q.len() && q[j].0 == t;
                        if j < i {
                            assert(p[j] == q[j]);
                        }
                    }
                    assert forall|t: u64| pair_tags(p).insert(uuid).contains(t) implies pair_tags(q).contains(t) by {
                        if t == uuid {
                            assert(q[i as int].0 == t);
                        } else {
                            let j = choose|j: int| 0 <= j < p.len() && p[j].0 == t;
                            assert(q[j] == p[j]);
                        }
                    }
                }
                assert(self.scheduled_set() == old(self).scheduled_set().difference(pair_tags(q)));
            }
            i = i + 1;
        }
        assert(s.take(s.len() as int) == s);
    }
}

/// One operation on a registry, with its arguments and its result.
pub enum RegistryOp {
    Allocate(u64),
    Schedule(u64, bool),
    Unschedule(u64, bool),
    Complete(Completion, Option<Completion>),
    BatchComplete(Seq<Completion>),
    Remove(u64, Result<Completion, PromiseStatus>),
    Insert(u64, Completion),
    Extend(Seq<(u64, Completion)>),
}

impl RegistryOp {
    /// Performing this operation takes `r0` to `r1`.
    pub open spec fn takes(self, r0: PromiseRegistry, r1: PromiseRegistry) -> bool {
        match self {
            RegistryOp::Allocate(t) => PromiseRegistry::allocates(r0, t, r1),
            RegistryOp::Schedule(t, fresh) => PromiseRegistry::schedules(r0, t, fresh, r1),
            RegistryOp::Unschedule(t, found) => PromiseRegistry::unschedules(r0, t, found, r1),
            RegistryOp::Complete(e, prev) => PromiseRegistry::completes(r0, e, prev, r1),
            RegistryOp::BatchComplete(es) => PromiseRegistry::batch_completes(r0, es, r1),
            RegistryOp::Remove(t, res) => PromiseRegistry::removes(r0, t, res, r1),
            RegistryOp::Insert(t, e) => PromiseRegistry::inserts(r0, t, e, r1),
            RegistryOp::Extend(ps) => PromiseRegistry::extends(r0, ps, r1),
        }
    }
}

/// Filing a batch of entries completes exactly the tags of the batch, on top of those
/// already completed.
pub proof fn lemma_complete_all_dom(m: Map<u64, Completion>, entries: Seq<Completion>, t: u64)
    ensures
        complete_all(m, entries).contains_key(t) <==> (m.contains_key(t) || tags_of(entries).contains(t)),
    decreases entries.len(),
{
    if entries.len() > 0 {
        let p = entries.drop_last();
        lemma_complete_all_dom(m, p, t);
        if tags_of(entries).contains(t) && entries.last().user_data != t {
            let j = choose|j: int| 0 <= j < entries.len() && entries[j].user_data == t;
            assert(p[j] == entries[j]);
            assert(tags_of(p).contains(t));
        }
        if tags_of(p).contains(t) {
            let j = choose|j: int| 0 <= j < p.len() && p[j].user_data == t;
            assert(entries[j] == p[j]);
        }
        if entries.last().user_data == t {
            assert(entries[entries.len() - 1].user_data == t);
        }
    }
}

/// Inserting pairs never drops a completed tag.
pub proof fn lemma_insert_all_keeps(m: Map<u64, Completion>, pairs: Seq<(u64, Completion)>, t: u64)
    requires
        m.contains_key(t),
    ensures
        insert_all(m, pairs).contains_key(t),
    decreases pairs.len(),
{
    if pairs.len() > 0 {
        lemma_insert_all_keeps(m, pairs.drop_last(), t);
    }
}

/// Allocating a tag and scheduling it, again and again with no removal in between, hands
/// out pairwise distinct tags.
pub proof fn lemma_allocated_tags_distinct(regs: Seq<PromiseRegistry>, allocated: Seq<PromiseRegistry>, tags: Seq<u64>)
    requires
        regs.len() == tags.len() + 1,
        allocated.len() == tags.len(),
        forall|i: int| 0 <= i < tags.len() ==> PromiseRegistry::allocates(regs[i], tags[i], #[trigger] allocated[i]),
        forall|i: int| 0 <= i < tags.len() ==> PromiseRegistry::schedules(allocated[i], tags[i], true, #[trigger] regs[i + 1]),
    ensures
        tags.no_duplicates(),
{
    assert forall|i: int, j: int| 0 <= i < tags.len() && 0 <= j < tags.len() && i != j implies tags[i] != tags[j] by {
        let (a, b) = if i < j { (i, j) } else { (j, i) };
        lemma_live_grows(regs, allocated, tags, a + 1, b);
        assert(regs[a + 1].live().contains(tags[a])) by {
            assert(PromiseRegistry::schedules(allocated[a], tags[a], true, regs[a + 1]));
        }
        assert(PromiseRegistry::allocates(regs[b], tags[b], allocated[b]));
    }
}

proof fn lemma_live_grows(regs: Seq<PromiseRegistry>, allocated: Seq<PromiseRegistry>, tags: Seq<u64>, a: int, b: int)
    requires
        regs.len() == tags.len() + 1,
        allocated.len() == tags.len(),
        forall|i: int| 0 <= i < tags.len() ==> PromiseRegistry::allocates(regs[i], tags[i], #[trigger] allocated[i]),
        forall|i: int| 0 <= i < tags.len() ==> PromiseRegistry::schedules(allocated[i], tags[i], true, #[trigger] regs[i + 1]),
        0 <= a <= b < regs.len(),
    ensures
        regs[a].live().subset_of(regs[b].live()),
    decreases b - a,
{
    if a < b {
        let k = b - 1;
        lemma_live_grows(regs, allocated, tags, a, k);
        assert(PromiseRegistry::allocates(regs[k], tags[k], allocated[k]));
        assert(PromiseRegistry::schedules(allocated[k], tags[k], true, regs[k + 1]));
    }
}

/// After `complete(entry)`, claiming the entry's tag succeeds exactly once: the first
/// removal returns the entry, a second one fails with `Unregistered`.
pub proof fn lemma_claim_exactly_once(
    r0: PromiseRegistry,
    entry: Completion,
    prev: Option<Completion>,
    r1: PromiseRegistry,
    first: Result<Completion, PromiseStatus>,
    r2: PromiseRegistry,
    second: Result<Completion, PromiseStatus>,
    r3: PromiseRegistry,
)
    requires
        PromiseRegistry::completes(r0, entry, prev, r1),
        PromiseRegistry::removes(r1, entry.user_data, first, r2),
        PromiseRegistry::removes(r2, entry.user_data, second, r3),
    ensures
        first == Ok::<Completion, PromiseStatus>(entry),
        second == Err::<Completion, PromiseStatus>(PromiseStatus::Unregistered),
{
}

/// A tag that was unregistered reads `Scheduled` right after it is scheduled, and
/// `Completed` after a batch completion that includes it.
pub proof fn lemma_status_advances(
    r0: PromiseRegistry,
    t: u64,
    fresh: bool,
    r1: PromiseRegistry,
    entries: Seq<Completion>,
    r2: PromiseRegistry,
)
    requires
        r0.status_of(t) == PromiseStatus::Unregistered,
        PromiseRegistry::schedules(r0, t, fresh, r1),
        PromiseRegistry::batch_completes(r1, entries, r2),
        tags_of(entries).contains(t),
    ensures
        r1.status_of(t) == PromiseStatus::Scheduled,
        r2.status_of(t) == PromiseStatus::Completed,
{
    lemma_complete_all_dom(r1.completed_map(), entries, t);
}

/// Once a tag reads `Completed`, no registry operation makes it read `Scheduled` again.
pub proof fn lemma_completed_never_rescheduled(op: RegistryOp, r0: PromiseRegistry, r1: PromiseRegistry, t: u64)
    requires
        r0.wf(),
        r0.status_of(t) == PromiseStatus::Completed,
        op.takes(r0, r1),
    ensures
        r1.status_of(t) != PromiseStatus::Scheduled,
{
    match op {
        RegistryOp::BatchComplete(es) => {
            assert(PromiseRegistry::batch_completes(r0, es, r1));
            lemma_complete_all_dom(r0.completed_map(), es, t);
            assert(r1.completed_map().contains_key(t));
        },
        RegistryOp::Extend(ps) => {
            lemma_insert_all_keeps(r0.completed_map(), ps, t);
        },
        _ => {},
    }
}

/// After a batch completion, every tag of the batch reads `Completed`.
pub proof fn lemma_drained_tags_completed(r0: PromiseRegistry, entries: Seq<Completion>, r1: PromiseRegistry)
    requires
        PromiseRegistry::batch_completes(r0, entries, r1),
    ensures
        forall|i: int| 0 <= i < entries.len() ==> r1.status_of(#[trigger] entries[i].user_data) == PromiseStatus::Completed,
{
    assert forall|i: int| 0 <= i < entries.len() implies r1.status_of(#[trigger] entries[i].user_data) == PromiseStatus::Completed by {
        assert(tags_of(entries).contains(entries[i].user_data));
        lemma_complete_all_dom(r0.completed_map(), entries, entries[i].user_data);
    }
}

/// The tag `m` steps after `c`, counting with wraparound.
pub open spec fn tag_add(c: u64, m: int) -> u64 {
    ((c + m) % tag_space()) as u64
}

/// Moving the origin `m` steps forward shifts every distance back by `m`, with wraparound.
proof fn lemma_dist_shift(c: u64, m: int, u: u64)
    requires
        0 <= m <= tag_space(),
    ensures
        tag_dist(c, u) >= m ==> tag_dist(tag_add(c, m), u) == tag_dist(c, u) - m,
        tag_dist(c, u) < m ==> tag_dist(tag_add(c, m), u) == tag_dist(c, u) - m + tag_space(),
{
    let k = c + m;
    if k >= tag_space() {
        assert(k % tag_space() == k - tag_space());
    } else {
        assert(k % tag_space() == k);
    }
}

/// From `regs[a]` to `regs[b]` the live tags only grow.
proof fn lemma_live_monotone(regs: Seq<PromiseRegistry>, allocated: Seq<PromiseRegistry>, tags: Seq<u64>, a: int, b: int)
    requires
        regs.len() == tags.len() + 1,
        allocated.len() == tags.len(),
        forall|i: int| 0 <= i < tags.len() ==> PromiseRegistry::allocates(regs[i], tags[i], #[trigger] allocated[i]),
        forall|i: int| 0 <= i < tags.len() ==> (#[trigger] allocated[i]).live().subset_of(regs[i + 1].live()),
        0 <= a <= b < regs.len(),
    ensures
        regs[a].live().subset_of(regs[b].live()),
    decreases b - a,
{
    if a < b {
        let k = b - 1;
        lemma_live_monotone(regs, allocated, tags, a, k);
        assert(PromiseRegistry::allocates(regs[k], tags[k], allocated[k]));
        assert(allocated[k].live().subset_of(regs[k + 1].live()));
    }
}

/// How many tags, from the first counter on, the first `k` allocations have passed over.
pub open spec fn alloc_span(c: u64, tags: Seq<u64>, k: int) -> int {
    if k <= 0 {
        0
    } else {
        tag_dist(c, tags[k - 1]) + 1
    }
}

proof fn lemma_alloc_prefix(regs: Seq<PromiseRegistry>, allocated: Seq<PromiseRegistry>, tags: Seq<u64>, k: int)
    requires
        regs.len() == tags.len() + 1,
        allocated.len() == tags.len(),
        forall|i: int| 0 <= i < regs.len() ==> (#[trigger] regs[i]).wf(),
        forall|i: int| 0 <= i < tags.len() ==> PromiseRegistry::allocates(regs[i], tags[i], #[trigger] allocated[i]),
        forall|i: int| 0 <= i < tags.len() ==> (#[trigger] allocated[i]).live().subset_of(regs[i + 1].live()),
        forall|i: int| 0 <= i < tags.len() ==> (#[trigger] allocated[i]).counter() == regs[i + 1].counter(),
        regs.last().live().len() + tags.len() <= tag_space(),
        0 <= k <= tags.len(),
    ensures
        forall|i: int, j: int| 0 <= i < j < k ==> tag_dist(regs[0].counter(), #[trigger] tags[i]) < tag_dist(regs[0].counter(), #[trigger] tags[j]),
        alloc_span(regs[0].counter(), tags, k) <= tag_space(),
        regs[k].counter() == tag_add(regs[0].counter(), alloc_span(regs[0].counter(), tags, k)),
        forall|u: u64| tag_dist(regs[0].counter(), u) < alloc_span(regs[0].counter(), tags, k) && !tags.take(k).contains(u)
            ==> #[trigger] regs[k].live().contains(u),
    decreases k,
{
    let c = regs[0].counter();
    let n = tags.len() as int;
    if k == 0 {
        assert((c + 0) % tag_space() == c);
    } else {
        let j = k - 1;
        lemma_alloc_prefix(regs, allocated, tags, j);
        let m = alloc_span(c, tags, j);
        let ck = regs[j].counter();
        let t = tags[j];
        let d = tag_dist(ck, t);
        assert(PromiseRegistry::allocates(regs[j], t, allocated[j]));
        let live = regs[j].live();
        // No wrap past the first counter: else every tag would be live or handed out.
        if m + d >= tag_space() {
            let handed = tags.take(j).to_set();
            tags.take(j).lemma_cardinality_of_set();
            lemma_live_monotone(regs, allocated, tags, j, n);
            lemma_len_subset(live, regs[n].live());
            lemma_len_union(live, handed);
            let all = live.union(handed);
            lemma_free_tag_exists(all);
            let u = choose|u: u64| !all.contains(u);
            lemma_dist_shift(c, m, u);
            if tag_dist(c, u) < m {
                assert(!tags.take(j).contains(u) ==> live.contains(u));
                if tags.take(j).contains(u) {
                    let i = choose|i: int| 0 <= i < tags.take(j).len() && tags.take(j)[i] == u;
                    assert(handed.contains(tags.take(j)[i]));
                }
            } else {
                assert(tag_dist(ck, u) < d);
                assert(live.contains(u));
            }
            assert(false);
        }
        lemma_dist_shift(c, m, t);
        assert(tag_dist(c, t) == m + d);
        let m2 = m + d + 1;
        assert(alloc_span(c, tags, k) == m2);
        // The counter moves just past `t`.
        assert(regs[k].counter() == t.wrapping_add(1));
        assert(tag_add(c, m2) == t.wrapping_add(1)) by {
            let x = c + m + d;
            if x >= tag_space() {
                assert(x % tag_space() == x - tag_space());
            } else {
                assert(x % tag_space() == x);
            }
            if x + 1 >= tag_space() {
                assert((x + 1) % tag_space() == x + 1 - tag_space());
            } else {
                assert((x + 1) % tag_space() == x + 1);
            }
            lemma_dist_shift(c, m, t);
        }
        assert forall|i: int, i2: int| 0 <= i < i2 < k implies tag_dist(c, #[trigger] tags[i]) < tag_dist(c, #[trigger] tags[i2]) by {
            if i2 < j {
            } else {
                assert(tag_dist(c, tags[i]) < m);
            }
        }
        assert forall|u: u64| tag_dist(c, u) < m2 && !tags.take(k).contains(u) implies #[trigger] regs[k].live().contains(u) by {
            assert(tags.take(k)[j] == t);
            assert(u != t);
            lemma_dist_shift(c, m, u);
            if tag_dist(c, u) < m {
                if tags.take(j).contains(u) {
                    let i = choose|i: int| 0 <= i < tags.take(j).len() && tags.take(j)[i] == u;
                    assert(tags.take(k)[i] == u);
                }
                assert(live.contains(u));
            } else {
                assert(tag_dist(c, u) != m + d);
                assert(tag_dist(ck, u) < d);
                assert(live.contains(u));
            }
            assert(allocated[j].live() == live);
            assert(allocated[j].live().subset_of(regs[j + 1].live()));
        }
    }
}

/// Successive allocations hand out pairwise distinct tags when no removal happens between
/// them, so long as the allocations and the tags live at the end number at most 2^64. Between
/// two allocations any operation but a removal (`remove`, `unschedule`) may run (see `lemma_op_keeps_live`): the live
/// tags only grow and the counter stays where the allocation left it.
pub proof fn lemma_allocations_distinct(regs: Seq<PromiseRegistry>, allocated: Seq<PromiseRegistry>, tags: Seq<u64>)
    requires
        regs.len() == tags.len() + 1,
        allocated.len() == tags.len(),
        forall|i: int| 0 <= i < regs.len() ==> (#[trigger] regs[i]).wf(),
        forall|i: int| 0 <= i < tags.len() ==> PromiseRegistry::allocates(regs[i], tags[i], #[trigger] allocated[i]),
        forall|i: int| 0 <= i < tags.len() ==> (#[trigger] allocated[i]).live().subset_of(regs[i + 1].live()),
        forall|i: int| 0 <= i < tags.len() ==> (#[trigger] allocated[i]).counter() == regs[i + 1].counter(),
        regs.last().live().len() + tags.len() <= tag_space(),
    ensures
        tags.no_duplicates(),
{
    lemma_alloc_prefix(regs, allocated, tags, tags.len() as int);
    let c = regs[0].counter();
    assert forall|i: int, j: int| 0 <= i < tags.len() && 0 <= j < tags.len() && i != j implies tags[i] != tags[j] by {
        if i < j {
            assert(tag_dist(c, tags[i]) < tag_dist(c, tags[j]));
        } else {
            assert(tag_dist(c, tags[j]) < tag_dist(c, tags[i]));
        }
    }
}

/// Every registry operation other than an allocation or a removal (`remove`, `unschedule`)
/// keeps the counter and never drops a live tag.
pub proof fn lemma_op_keeps_live(op: RegistryOp, r0: PromiseRegistry, r1: PromiseRegistry)
    requires
        r0.wf(),
        op.takes(r0, r1),
        !(op is Allocate),
        !(op is Remove),
        !(op is Unschedule),
    ensures
        r1.counter() == r0.counter(),
        r0.live().subset_of(r1.live()),
{
    assert forall|t: u64| r0.live().contains(t) implies r1.live().contains(t) by {
        match op {
            RegistryOp::BatchComplete(es) => {
                lemma_complete_all_dom(r0.completed_map(), es, t);
            },
            RegistryOp::Extend(ps) => {
                if r0.completed_map().contains_key(t) {
                    lemma_insert_all_keeps(r0.completed_map(), ps, t);
                } else if !pair_tags(ps).contains(t) {
                } else {
                    lemma_insert_all_dom(r0.completed_map(), ps, t);
                }
            },
            _ => {},
        }
    }
}

/// Inserting pairs files every tag of the pairs.
pub proof fn lemma_insert_all_dom(m: Map<u64, Completion>, pairs: Seq<(u64, Completion)>, t: u64)
    requires
        pair_tags(pairs).contains(t),
    ensures
        insert_all(m, pairs).contains_key(t),
    decreases pairs.len(),
{
    if pairs.len() > 0 {
        let p = pairs.drop_last();
        if pairs.last().0 != t {
            let j = choose|j: int| 0 <= j < pairs.len() && pairs[j].0 == t;
            assert(j < pairs.len() - 1);
            assert(p[j] == pairs[j]);
            assert(pair_tags(p).contains(t));
            lemma_insert_all_dom(m, p, t);
        }
    }
}

/// A set of fewer than 2^64 tags leaves some tag out.
pub proof fn lemma_free_tag_exists(s: Set<u64>)
    requires
        s.finite(),
        s.len() < tag_space(),
    ensures
        exists|t: u64| !s.contains(t),
{
    if forall|t: u64| s.contains(t) {
        let f = |t: u64| t as int;
        let y = s.map(f);
        lemma_map_size_bound(s, y, f);
        lemma_int_range(0, tag_space());
        assert forall|i: int| set_int_range(0, tag_space()).contains(i) implies y.contains(i) by {
            let t = i as u64;
            assert(s.contains(t));
            assert(f(t) == i);
        }
        lemma_len_subset(set_int_range(0, tag_space()), y);
    }
}

} // verus!
