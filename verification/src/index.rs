//! The visibility index: which messages may be delivered, and when.
//!
//! The index is an ordered set of `(visible_ts, id)` pairs with, for each id,
//! the poll tag of its current delivery. It is the authority on
//! deliverability: a message that is absent from it is in flight or gone.

use crate::tag::PollTag;
use vstd::prelude::*;

verus! {

/// What the index knows of one message.
pub struct Visibility {
    /// Seconds since the epoch at or after which the message may be delivered.
    pub visible_ts: i64,
    /// The tag of the message's current delivery.
    pub poll_tag: PollTag,
}

/// The mathematical content of an index: each live id with its visibility.
pub type IndexModel = Map<u64, Visibility>;

/// `(ts_a, id_a)` comes no later than `(ts_b, id_b)`: earlier timestamp
/// first, smaller id first among equal timestamps.
pub open spec fn key_le(ts_a: i64, id_a: u64, ts_b: i64, id_b: u64) -> bool {
    ts_a < ts_b || (ts_a == ts_b && id_a <= id_b)
}

/// `(ts_a, id_a)` comes strictly before `(ts_b, id_b)`.
pub open spec fn key_lt(ts_a: i64, id_a: u64, ts_b: i64, id_b: u64) -> bool {
    ts_a < ts_b || (ts_a == ts_b && id_a < id_b)
}

/// `id` is the entry of `m` with the smallest `(visible_ts, id)`.
pub open spec fn is_earliest(m: IndexModel, id: u64) -> bool {
    &&& m.contains_key(id)
    &&& forall|k: u64| #[trigger] m.contains_key(k) ==> key_le(m[id].visible_ts, id, m[k].visible_ts, k)
}

/// No entry of `m` is visible at `now`.
pub open spec fn none_visible(m: IndexModel, now: i64) -> bool {
    forall|k: u64| #[trigger] m.contains_key(k) ==> m[k].visible_ts > now
}

/// `id` is what a poll at `now` delivers from `m`: the earliest entry, and
/// one that is visible at `now`.
pub open spec fn is_deliverable(m: IndexModel, now: i64, id: u64) -> bool {
    is_earliest(m, id) && m[id].visible_ts <= now
}

/// At most one entry is the earliest.
pub proof fn lemma_earliest_is_unique(m: IndexModel, a: u64, b: u64)
    requires
        is_earliest(m, a),
        is_earliest(m, b),
    ensures
        a == b,
{
}

/// A message that is visible at `now` keeps a poll at `now` from coming back
/// empty, and the poll delivers that message or one that comes before it.
pub proof fn lemma_visible_message_is_delivered(m: IndexModel, id: u64, now: i64, polled: u64)
    requires
        m.contains_key(id),
        m[id].visible_ts <= now,
    ensures
        !none_visible(m, now),
        is_deliverable(m, now, polled) ==> key_le(
            m[polled].visible_ts,
            polled,
            m[id].visible_ts,
            id,
        ),
{
}

/// A message that a poll has claimed is in flight: while it stays out of the
/// index, whatever else enters or leaves, no poll at any time delivers it.
pub proof fn lemma_at_most_one_in_flight(
    before: IndexModel,
    now: i64,
    id: u64,
    later: IndexModel,
    later_now: i64,
    polled: u64,
)
    requires
        is_deliverable(before, now, id),
        !later.contains_key(id),
        is_deliverable(later, later_now, polled),
    ensures
        !before.remove(id).contains_key(id),
        polled != id,
{
}

struct Entry {
    visible_ts: i64,
    id: u64,
    poll_tag: PollTag,
}

/// The in-memory visibility index.
pub struct VisibilityIndex {
    entries: Vec<Entry>,
    model: Ghost<IndexModel>,
}

impl View for VisibilityIndex {
    type V = IndexModel;

    closed spec fn view(&self) -> IndexModel {
        self.model@
    }
}

impl VisibilityIndex {
    /// The index is sorted by `(visible_ts, id)`, holds each id once, and
    /// its entries are exactly its model.
    pub closed spec fn wf(&self) -> bool {
        &&& forall|i: int, j: int|
            0 <= i < j < self.entries@.len() ==> key_lt(
                (#[trigger] self.entries@[i]).visible_ts,
                self.entries@[i].id,
                (#[trigger] self.entries@[j]).visible_ts,
                self.entries@[j].id,
            )
        &&& forall|i: int|
            0 <= i < self.entries@.len() ==> {
                &&& self.model@.contains_key((#[trigger] self.entries@[i]).id)
                &&& self.model@[self.entries@[i].id] == (Visibility {
                    visible_ts: self.entries@[i].visible_ts,
                    poll_tag: self.entries@[i].poll_tag,
                })
            }
        &&& forall|id: u64| #[trigger]
            self.model@.contains_key(id) ==> exists|i: int|
                0 <= i < self.entries@.len() && (#[trigger] self.entries@[i]).id == id
    }

    /// An empty index.
    pub fn new() -> (idx: VisibilityIndex)
        ensures
            idx.wf(),
            idx@ == Map::<u64, Visibility>::empty(),
    {
        VisibilityIndex { entries: Vec::new(), model: Ghost(Map::empty()) }
    }

    /// Whether the index holds no message.
    pub fn is_empty(&self) -> (empty: bool)
        requires
            self.wf(),
        ensures
            empty == (self@ == Map::<u64, Visibility>::empty()),
    {
        let empty = self.entries.len() == 0;
        proof {
            if empty {
                assert(self@ =~= Map::<u64, Visibility>::empty());
            } else {
                assert(self@.contains_key(self.entries@[0].id));
            }
        }
        empty
    }

    fn position_of(&self, id: u64) -> (pos: Option<usize>)
        requires
            self.wf(),
        ensures
            pos is Some == self@.contains_key(id),
            pos matches Some(p) ==> p < self.entries@.len() && self.entries@[p as int].id == id,
    {
        let mut i: usize = 0;
        while i < self.entries.len()
            invariant
                self.wf(),
                0 <= i <= self.entries@.len(),
                forall|j: int| 0 <= j < i ==> (#[trigger] self.entries@[j]).id != id,
            decreases self.entries@.len() - i,
        {
            if self.entries[i].id == id {
                assert(self@.contains_key(self.entries@[i as int].id));
                return Some(i);
            }
            i += 1;
        }
        None
    }

    /// Whether `id` is in the index.
    pub fn contains(&self, id: u64) -> (present: bool)
        requires
            self.wf(),
        ensures
            present == self@.contains_key(id),
    {
        self.position_of(id).is_some()
    }

    /// The visibility recorded for `id`, if it is in the index.
    pub fn get(&self, id: u64) -> (found: Option<Visibility>)
        requires
            self.wf(),
        ensures
            found is Some == self@.contains_key(id),
            found matches Some(v) ==> v == self@[id],
    {
        match self.position_of(id) {
            Some(p) => Some(
                Visibility {
                    visible_ts: self.entries[p].visible_ts,
                    poll_tag: self.entries[p].poll_tag,
                },
            ),
            None => None,
        }
    }

    /// Adds `id` under `visible_ts` with `poll_tag`. Fails, leaving the index
    /// as it was, if `id` is already present.
    pub fn insert(&mut self, id: u64, visible_ts: i64, poll_tag: PollTag) -> (inserted: bool)
        requires
            old(self).wf(),
        ensures
            final(self).wf(),
            inserted == !old(self)@.contains_key(id),
            inserted ==> final(self)@ == old(self)@.insert(id, Visibility { visible_ts, poll_tag }),
            !inserted ==> final(self)@ == old(self)@,
    {
        if self.position_of(id).is_some() {
            return false;
        }
        let mut p: usize = 0;
        while p < self.entries.len() && (self.entries[p].visible_ts < visible_ts || (
            self.entries[p].visible_ts == visible_ts && self.entries[p].id < id))
            invariant
                0 <= p <= self.entries@.len(),
                forall|j: int|
                    0 <= j < p ==> key_lt(
                        (#[trigger] self.entries@[j]).visible_ts,
                        self.entries@[j].id,
                        visible_ts,
                        id,
                    ),
            decreases self.entries@.len() - p,
        {
            p += 1;
        }
        let ghost before = self.entries@;
        self.entries.insert(p, Entry { visible_ts, id, poll_tag });
        self.model = Ghost(self.model@.insert(id, Visibility { visible_ts, poll_tag }));
        proof {
            let after = self.entries@;
            assert(after == before.insert(p as int, Entry { visible_ts, id, poll_tag }));
            assert forall|j: int| 0 <= j < after.len() implies {
                &&& j < p ==> after[j] == before[j]
                &&& j > p ==> after[j] == before[j - 1]
            } by {}
            assert forall|i: int, j: int| 0 <= i < j < after.len() implies key_lt(
                (#[trigger] after[i]).visible_ts,
                after[i].id,
                (#[trigger] after[j]).visible_ts,
                after[j].id,
            ) by {
                if j > p && i < p {
                    assert(key_lt(before[i].visible_ts, before[i].id, visible_ts, id));
                    if p < before.len() {
                        assert(before[p as int].id != id);
                        if j - 1 > p {
                            assert(key_lt(
                                before[p as int].visible_ts,
                                before[p as int].id,
                                before[j - 1].visible_ts,
                                before[j - 1].id,
                            ));
                        }
                    }
                } else if i == p {
                    assert(before[p as int].id != id);
                    if j - 1 > p {
                        assert(key_lt(
                            before[p as int].visible_ts,
                            before[p as int].id,
                            before[j - 1].visible_ts,
                            before[j - 1].id,
                        ));
                    }
                } else if j == p {
                } else if j < p {
                    assert(key_lt(before[i].visible_ts, before[i].id, before[j].visible_ts, before[j].id));
                } else {
                    assert(key_lt(
                        before[i - 1].visible_ts,
                        before[i - 1].id,
                        before[j - 1].visible_ts,
                        before[j - 1].id,
                    ));
                }
            }
            assert forall|k: u64| #[trigger] self.model@.contains_key(k) implies exists|i: int|
                0 <= i < after.len() && (#[trigger] after[i]).id == k by {
                if k == id {
                    assert(after[p as int].id == id);
                } else {
                    let i = choose|i: int| 0 <= i < before.len() && (#[trigger] before[i]).id == k;
                    if i < p {
                        assert(after[i].id == k);
                    } else {
                        assert(after[i + 1].id == k);
                    }
                }
            }
        }
        true
    }

    fn remove_at(&mut self, p: usize) -> (entry: Entry)
        requires
            old(self).wf(),
            p < old(self).entries@.len(),
        ensures
            final(self).wf(),
            entry == old(self).entries@[p as int],
            final(self)@ == old(self)@.remove(entry.id),
            final(self).entries@ == old(self).entries@.remove(p as int),
    {
        let ghost before = self.entries@;
        let entry = self.entries.remove(p);
        self.model = Ghost(self.model@.remove(entry.id));
        proof {
            let after = self.entries@;
            assert forall|j: int| 0 <= j < after.len() implies {
                &&& j < p ==> after[j] == before[j]
                &&& j >= p ==> after[j] == before[j + 1]
            } by {}
            assert forall|i: int, j: int| 0 <= i < j < after.len() implies key_lt(
                (#[trigger] after[i]).visible_ts,
                after[i].id,
                (#[trigger] after[j]).visible_ts,
                after[j].id,
            ) by {
                let bi = if i < p { i } else { i + 1 };
                let bj = if j < p { j } else { j + 1 };
                assert(key_lt(before[bi].visible_ts, before[bi].id, before[bj].visible_ts, before[bj].id));
            }
            assert forall|i: int| 0 <= i < after.len() implies (#[trigger] after[i]).id != entry.id by {
                let bi = if i < p { i } else { i + 1 };
                if bi < p {
                    assert(key_lt(
                        before[bi].visible_ts,
                        before[bi].id,
                        before[p as int].visible_ts,
                        before[p as int].id,
                    ));
                } else {
                    assert(key_lt(
                        before[p as int].visible_ts,
                        before[p as int].id,
                        before[bi].visible_ts,
                        before[bi].id,
                    ));
                }
                assert(old(self)@[before[bi].id].visible_ts == before[bi].visible_ts);
                assert(old(self)@[before[p as int].id].visible_ts == before[p as int].visible_ts);
            }
            assert forall|k: u64| #[trigger] self.model@.contains_key(k) implies exists|i: int|
                0 <= i < after.len() && (#[trigger] after[i]).id == k by {
                let i = choose|i: int| 0 <= i < before.len() && (#[trigger] before[i]).id == k;
                if i < p {
                    assert(after[i].id == k);
                } else {
                    assert(after[i - 1].id == k);
                }
            }
        }
        entry
    }

    /// Removes `id` if it is present and its tag is `expected`, and says
    /// whether it did. Otherwise the index stays as it was.
    pub fn remove_if_poll_tag_matches(&mut self, id: u64, expected: &PollTag) -> (removed: bool)
        requires
            old(self).wf(),
        ensures
            final(self).wf(),
            removed == (old(self)@.contains_key(id) && old(self)@[id].poll_tag == *expected),
            removed ==> final(self)@ == old(self)@.remove(id),
            !removed ==> final(self)@ == old(self)@,
    {
        match self.position_of(id) {
            Some(p) => {
                if self.entries[p].poll_tag.matches(expected) {
                    let _ = self.remove_at(p);
                    true
                } else {
                    false
                }
            },
            None => false,
        }
    }

    /// The entry with the smallest `(visible_ts, id)`, left in place.
    pub fn peek_earliest(&self) -> (first: Option<(i64, u64)>)
        requires
            self.wf(),
        ensures
            first is None == (self@ == Map::<u64, Visibility>::empty()),
            first matches Some((ts, id)) ==> is_earliest(self@, id) && self@[id].visible_ts == ts,
    {
        if self.entries.len() == 0 {
            assert(self@ =~= Map::<u64, Visibility>::empty());
            None
        } else {
            proof {
                self.lemma_first_is_earliest();
            }
            Some((self.entries[0].visible_ts, self.entries[0].id))
        }
    }

    proof fn lemma_first_is_earliest(&self)
        requires
            self.wf(),
            self.entries@.len() > 0,
        ensures
            is_earliest(self@, self.entries@[0].id),
            self@[self.entries@[0].id].visible_ts == self.entries@[0].visible_ts,
    {
        let first = self.entries@[0];
        assert forall|k: u64| #[trigger] self@.contains_key(k) implies key_le(
            self@[first.id].visible_ts,
            first.id,
            self@[k].visible_ts,
            k,
        ) by {
            let i = choose|i: int| 0 <= i < self.entries@.len() && (#[trigger] self.entries@[i]).id == k;
            if i > 0 {
                assert(key_lt(
                    self.entries@[0].visible_ts,
                    self.entries@[0].id,
                    self.entries@[i].visible_ts,
                    self.entries@[i].id,
                ));
            }
        }
    }

    /// Removes and returns the id with the smallest `(visible_ts, id)`,
    /// provided that it is visible at `now`. If no entry is visible at `now`
    /// the index stays as it was.
    pub fn remove_earliest_up_to(&mut self, now: i64) -> (popped: Option<u64>)
        requires
            old(self).wf(),
        ensures
            final(self).wf(),
            match popped {
                Some(id) => is_deliverable(old(self)@, now, id) && final(self)@ == old(self)@.remove(id),
                None => none_visible(old(self)@, now) && final(self)@ == old(self)@,
            },
    {
        if self.entries.len() == 0 {
            return None;
        }
        proof {
            self.lemma_first_is_earliest();
        }
        if self.entries[0].visible_ts <= now {
            let entry = self.remove_at(0);
            Some(entry.id)
        } else {
            None
        }
    }
}

} // verus!
