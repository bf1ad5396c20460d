//! The vacant set: the slots that hold no message.

use crate::index::VisibilityIndex;
use vstd::prelude::*;

verus! {

/// No slot is both vacant and live.
pub open spec fn disjoint_from_live(vacant: Set<u64>, live: Map<u64, crate::index::Visibility>) -> bool {
    forall|slot: u64| !(vacant.contains(slot) && #[trigger] live.contains_key(slot))
}

/// `slot` is the smallest member of `s`.
pub open spec fn is_least(s: Set<u64>, slot: u64) -> bool {
    s.contains(slot) && forall|other: u64| #[trigger] s.contains(other) ==> slot <= other
}

/// The set of free slot indices.
pub struct VacantSet {
    slots: Vec<u64>,
    model: Ghost<Set<u64>>,
}

impl View for VacantSet {
    type V = Set<u64>;

    closed spec fn view(&self) -> Set<u64> {
        self.model@
    }
}

impl VacantSet {
    /// The slots are kept in increasing order, each once, and are exactly
    /// the model.
    pub closed spec fn wf(&self) -> bool {
        &&& forall|i: int, j: int|
            0 <= i < j < self.slots@.len() ==> self.slots@[i] < self.slots@[j]
        &&& forall|i: int| 0 <= i < self.slots@.len() ==> self.model@.contains(#[trigger] self.slots@[i])
        &&& forall|slot: u64| #[trigger]
            self.model@.contains(slot) ==> exists|i: int|
                0 <= i < self.slots@.len() && self.slots@[i] == slot
    }

    /// An empty set.
    pub fn new() -> (set: VacantSet)
        ensures
            set.wf(),
            set@ == Set::<u64>::empty(),
    {
        VacantSet { slots: Vec::new(), model: Ghost(Set::empty()) }
    }

    /// How many slots are vacant.
    pub fn len(&self) -> (n: usize)
        requires
            self.wf(),
        ensures
            self@.finite(),
            n == self@.len(),
    {
        proof {
            self.lemma_model_is_slots();
        }
        self.slots.len()
    }

    /// The model is the finite set of the slots held, and has as many
    /// members as slots are held.
    proof fn lemma_model_is_slots(&self)
        requires
            self.wf(),
        ensures
            self@.finite(),
            self@.len() == self.slots@.len(),
    {
        let held = self.slots@;
        assert(held.no_duplicates()) by {
            assert forall|i: int, j: int|
                0 <= i < held.len() && 0 <= j < held.len() && i != j implies held[i] != held[j] by {
                if i < j {
                    assert(held[i] < held[j]);
                } else {
                    assert(held[j] < held[i]);
                }
            }
        }
        assert(self@ =~= held.to_set()) by {
            assert forall|slot: u64| self@.contains(slot) == held.to_set().contains(slot) by {
                if self@.contains(slot) {
                    let i = choose|i: int| 0 <= i < held.len() && held[i] == slot;
                    assert(held.contains(slot));
                }
                if held.contains(slot) {
                    let i = choose|i: int| 0 <= i < held.len() && held[i] == slot;
                    assert(self@.contains(held[i]));
                }
            }
        }
        held.unique_seq_to_set();
        vstd::seq_lib::seq_to_set_is_finite(held);
    }

    fn position_at_or_after(&self, slot: u64) -> (p: usize)
        requires
            self.wf(),
        ensures
            p <= self.slots@.len(),
            forall|j: int| 0 <= j < p ==> self.slots@[j] < slot,
            p < self.slots@.len() ==> self.slots@[p as int] >= slot,
    {
        let mut p: usize = 0;
        while p < self.slots.len() && self.slots[p] < slot
            invariant
                0 <= p <= self.slots@.len(),
                forall|j: int| 0 <= j < p ==> self.slots@[j] < slot,
            decreases self.slots@.len() - p,
        {
            p += 1;
        }
        p
    }

    /// Whether `slot` is vacant.
    pub fn contains(&self, slot: u64) -> (vacant: bool)
        requires
            self.wf(),
        ensures
            vacant == self@.contains(slot),
    {
        let p = self.position_at_or_after(slot);
        let found = p < self.slots.len() && self.slots[p] == slot;
        proof {
            if !found && self@.contains(slot) {
                let i = choose|i: int| 0 <= i < self.slots@.len() && self.slots@[i] == slot;
                if i > p {
                    assert(self.slots@[p as int] < self.slots@[i]);
                }
            }
        }
        found
    }

    /// Marks `slot` as vacant, and says whether it was not so before.
    pub fn insert(&mut self, slot: u64) -> (added: bool)
        requires
            old(self).wf(),
        ensures
            final(self).wf(),
            added == !old(self)@.contains(slot),
            final(self)@ == old(self)@.insert(slot),
    {
        let p = self.position_at_or_after(slot);
        if p < self.slots.len() && self.slots[p] == slot {
            assert(self@.insert(slot) =~= self@);
            return false;
        }
        proof {
            if self@.contains(slot) {
                let i = choose|i: int| 0 <= i < self.slots@.len() && self.slots@[i] == slot;
                if i > p {
                    assert(self.slots@[p as int] < self.slots@[i]);
                }
            }
        }
        let ghost before = self.slots@;
        self.slots.insert(p, slot);
        self.model = Ghost(self.model@.insert(slot));
        proof {
            let after = self.slots@;
            assert forall|j: int| 0 <= j < after.len() implies {
                &&& j < p ==> after[j] == before[j]
                &&& j == p ==> after[j] == slot
                &&& j > p ==> after[j] == before[j - 1]
            } by {}
            assert forall|i: int, j: int| 0 <= i < j < after.len() implies after[i] < after[j] by {
                if j > p && p < before.len() {
                    assert(before[p as int] <= before[j - 1]);
                }
            }
            assert forall|k: u64| #[trigger] self.model@.contains(k) implies exists|i: int|
                0 <= i < after.len() && after[i] == k by {
                if k == slot {
                    assert(after[p as int] == k);
                } else {
                    let i = choose|i: int| 0 <= i < before.len() && before[i] == k;
                    if i < p {
                        assert(after[i] == k);
                    } else {
                        assert(after[i + 1] == k);
                    }
                }
            }
        }
        true
    }

    /// Marks `slot` as vacant unless it is live in `index`, and says whether
    /// it is vacant afterwards. No slot ever becomes both vacant and live.
    pub fn release(&mut self, slot: u64, index: &VisibilityIndex) -> (vacant: bool)
        requires
            old(self).wf(),
            index.wf(),
        ensures
            final(self).wf(),
            vacant == !index@.contains_key(slot),
            vacant ==> final(self)@ == old(self)@.insert(slot),
            !vacant ==> final(self)@ == old(self)@,
            disjoint_from_live(old(self)@, index@) ==> disjoint_from_live(final(self)@, index@),
    {
        if index.contains(slot) {
            return false;
        }
        let _ = self.insert(slot);
        true
    }

    /// Removes and returns the smallest vacant slot, if there is one.
    pub fn remove_min(&mut self) -> (least: Option<u64>)
        requires
            old(self).wf(),
        ensures
            final(self).wf(),
            match least {
                Some(slot) => is_least(old(self)@, slot) && final(self)@ == old(self)@.remove(slot),
                None => old(self)@ == Set::<u64>::empty() && final(self)@ == old(self)@,
            },
    {
        if self.slots.len() == 0 {
            assert(self@ =~= Set::<u64>::empty());
            return None;
        }
        let ghost before = self.slots@;
        let slot = self.slots.remove(0);
        self.model = Ghost(self.model@.remove(slot));
        proof {
            let after = self.slots@;
            assert forall|j: int| 0 <= j < after.len() implies after[j] == before[j + 1] by {}
            assert forall|other: u64| #[trigger] old(self)@.contains(other) implies slot <= other by {
                let i = choose|i: int| 0 <= i < before.len() && before[i] == other;
                if i > 0 {
                    assert(before[0] < before[i]);
                }
            }
            assert forall|i: int, j: int| 0 <= i < j < after.len() implies after[i] < after[j] by {
                assert(before[i + 1] < before[j + 1]);
            }
            assert forall|i: int| 0 <= i < after.len() implies self.model@.contains(
                #[trigger] after[i],
            ) by {
                assert(before[0] < before[i + 1]);
                assert(old(self)@.contains(before[i + 1]));
            }
            assert forall|k: u64| #[trigger] self.model@.contains(k) implies exists|i: int|
                0 <= i < after.len() && after[i] == k by {
                let i = choose|i: int| 0 <= i < before.len() && before[i] == k;
                assert(after[i - 1] == k);
            }
        }
        Some(slot)
    }
}

} // verus!
