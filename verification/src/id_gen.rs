//! Allocation of message ids.
//!
//! Ids are handed out in increasing order and never twice. The generator
//! also tracks the commit watermark: every id below it is durably known to
//! exist. After a crash the generator restarts at the watermark, so ids that
//! were handed out but never committed are handed out again, and ids of
//! committed messages never are.

use vstd::prelude::*;

verus! {

/// The id generator.
pub struct IdGenerator {
    next: u64,
    committed: u64,
}

impl IdGenerator {
    /// The next id to hand out.
    pub closed spec fn next(&self) -> u64 {
        self.next
    }

    /// The commit watermark: one more than the largest id whose existence is
    /// durable.
    pub closed spec fn committed(&self) -> u64 {
        self.committed
    }

    /// The watermark never runs ahead of the ids handed out.
    pub open spec fn wf(&self) -> bool {
        self.committed() <= self.next()
    }

    /// A generator for an empty queue.
    pub fn new() -> (g: IdGenerator)
        ensures
            g.wf(),
            g.next() == 0,
            g.committed() == 0,
    {
        IdGenerator { next: 0, committed: 0 }
    }

    /// The generator after a restart, seeded with the durable watermark.
    pub fn recover(committed: u64) -> (g: IdGenerator)
        ensures
            g.wf(),
            g.next() == committed,
            g.committed() == committed,
    {
        IdGenerator { next: committed, committed }
    }

    /// The next id to hand out.
    pub fn peek_next(&self) -> (id: u64)
        ensures
            id == self.next(),
    {
        self.next
    }

    /// The commit watermark.
    pub fn watermark(&self) -> (id: u64)
        ensures
            id == self.committed(),
    {
        self.committed
    }

    /// Whether `n` more ids can be handed out.
    pub fn has_room(&self, n: u64) -> (room: bool)
        ensures
            room == (self.next() + n <= u64::MAX),
    {
        n <= u64::MAX - self.next
    }

    /// Reserves `n` contiguous ids and returns the first.
    pub fn generate(&mut self, n: u64) -> (base: u64)
        requires
            old(self).wf(),
            old(self).next() + n <= u64::MAX,
        ensures
            final(self).wf(),
            base == old(self).next(),
            final(self).next() == old(self).next() + n,
            final(self).committed() == old(self).committed(),
    {
        let base = self.next;
        self.next = self.next + n;
        base
    }

    /// Records that ids `base_id .. base_id + n` are durable, and returns the
    /// watermark to persist. Commits may arrive in any order: the watermark
    /// is the largest end seen. A range that was never handed out is
    /// refused, and the generator stays as it was.
    pub fn commit(&mut self, base_id: u64, n: u64) -> (watermark: Option<u64>)
        requires
            old(self).wf(),
        ensures
            final(self).wf(),
            final(self).next() == old(self).next(),
            watermark is Some == (base_id + n <= old(self).next()),
            watermark matches Some(w) ==> w == final(self).committed() && w == watermark_after(
                old(self).committed(),
                base_id,
                n,
            ),
            watermark is None ==> final(self).committed() == old(self).committed(),
    {
        if base_id > self.next || n > self.next - base_id {
            return None;
        }
        let end = base_id + n;
        if end > self.committed {
            self.committed = end;
        }
        Some(self.committed)
    }
}

/// The watermark once ids `base_id .. base_id + n` are committed on top of
/// `committed`: the larger of the old watermark and the end of the range.
pub open spec fn watermark_after(committed: u64, base_id: u64, n: u64) -> int {
    if committed >= base_id + n {
        committed as int
    } else {
        base_id + n
    }
}

/// Ids are monotonic across a crash. Once a range of ids has been
/// committed, a generator recovered from the watermark of that commit, or
/// from a later one, hands out only ids above every id of the range.
pub proof fn lemma_ids_monotonic_across_recovery(
    committed: u64,
    base_id: u64,
    n: u64,
    id: u64,
    recovered: IdGenerator,
)
    requires
        base_id <= id < base_id + n,
        recovered.wf(),
        recovered.committed() >= watermark_after(committed, base_id, n),
    ensures
        recovered.next() > id,
{
}

} // verus!
