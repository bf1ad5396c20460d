//! The state shared by all operations.

use crate::id_gen::IdGenerator;
use crate::index::VisibilityIndex;
use crate::metrics::Metrics;
use crate::slot::MESSAGE_SLOT_CONTENT_LEN_MAX;
use crate::suspension::Suspension;
use crate::tag::PollTag;
use vstd::prelude::*;

verus! {

/// How a deployment persists its messages.
#[derive(Clone, Copy, Debug, PartialEq, Eq, Structural)]
pub enum Layout {
    /// Fixed-size slots on a block device.
    Slot,
    /// Three keys per message in a sorted-key store.
    Keyed { max_contents_len: u64 },
}

impl Layout {
    /// The longest contents, in bytes, that the layout accepts.
    pub open spec fn max_len(self) -> u64 {
        match self {
            Layout::Slot => MESSAGE_SLOT_CONTENT_LEN_MAX,
            Layout::Keyed { max_contents_len } => max_contents_len,
        }
    }

    /// The longest contents, in bytes, that the layout accepts.
    pub fn max_contents_len(&self) -> (max: u64)
        ensures
            max == self.max_len(),
    {
        match self {
            Layout::Slot => MESSAGE_SLOT_CONTENT_LEN_MAX,
            Layout::Keyed { max_contents_len } => *max_contents_len,
        }
    }

    /// Whether `tag` is what a message carries before its first delivery: a
    /// zero token in a slot, the counter zero in the keyed store.
    pub open spec fn is_initial_tag(self, tag: PollTag) -> bool {
        match self {
            Layout::Slot => tag matches PollTag::Token(bytes) && forall|i: int|
                0 <= i < 30 ==> bytes[i] == 0u8,
            Layout::Keyed { .. } => tag == PollTag::Counter(0),
        }
    }

    /// The tag a message carries before its first delivery.
    pub fn initial_poll_tag(&self) -> (tag: PollTag)
        ensures
            self.is_initial_tag(tag),
    {
        match self {
            Layout::Slot => PollTag::zero_token(),
            Layout::Keyed { .. } => PollTag::initial_counter(),
        }
    }
}

/// Every id in the index `m` was handed out: it is below `next`, the next
/// id to hand out.
pub open spec fn ids_allocated(m: Map<u64, crate::index::Visibility>, next: u64) -> bool {
    forall|id: u64| #[trigger] m.contains_key(id) ==> id < next
}

/// Everything the operations share: the layout in use, the visibility
/// index, the id generator, the counters and the kill switches.
pub struct Ctx {
    pub layout: Layout,
    pub messages: VisibilityIndex,
    pub id_gen: IdGenerator,
    pub metrics: Metrics,
    pub suspension: Suspension,
}

impl Ctx {
    /// The index and the id generator are well formed, and every id in the
    /// index was handed out by the generator.
    pub open spec fn wf(&self) -> bool {
        &&& self.messages.wf()
        &&& self.id_gen.wf()
        &&& ids_allocated(self.messages@, self.id_gen.next())
    }

    /// The state of an empty queue.
    pub fn new(layout: Layout) -> (ctx: Ctx)
        ensures
            ctx.wf(),
            ctx.layout == layout,
            ctx.messages@ == Map::<u64, crate::index::Visibility>::empty(),
            ctx.id_gen.next() == 0,
            ctx.id_gen.committed() == 0,
            ctx.metrics == Metrics::zero(),
            ctx.suspension == Suspension::none(),
    {
        Ctx {
            layout,
            messages: VisibilityIndex::new(),
            id_gen: IdGenerator::new(),
            metrics: Metrics::new(),
            suspension: Suspension::new(),
        }
    }

    /// Puts a stored message back into the index after a restart, and says
    /// whether it did. A message whose id is in the index already, or was
    /// never handed out, is refused, and nothing changes.
    pub fn restore(&mut self, id: u64, visible_ts: i64, poll_tag: PollTag) -> (restored: bool)
        requires
            old(self).wf(),
        ensures
            final(self).wf(),
            final(self).layout == old(self).layout,
            final(self).id_gen == old(self).id_gen,
            final(self).metrics == old(self).metrics,
            final(self).suspension == old(self).suspension,
            restored == (!old(self).messages@.contains_key(id) && id < old(self).id_gen.next()),
            restored ==> final(self).messages@ == old(self).messages@.insert(
                id,
                crate::index::Visibility { visible_ts, poll_tag },
            ),
            !restored ==> final(self).messages@ == old(self).messages@,
    {
        if id >= self.id_gen.peek_next() {
            return false;
        }
        self.messages.insert(id, visible_ts, poll_tag)
    }

    /// The state after a restart, before the stored messages are put back
    /// into the index: ids resume at the durable watermark.
    pub fn recover(layout: Layout, watermark: u64) -> (ctx: Ctx)
        ensures
            ctx.wf(),
            ctx.layout == layout,
            ctx.messages@ == Map::<u64, crate::index::Visibility>::empty(),
            ctx.id_gen.next() == watermark,
            ctx.id_gen.committed() == watermark,
            ctx.metrics == Metrics::zero(),
            ctx.suspension == Suspension::none(),
    {
        Ctx {
            layout,
            messages: VisibilityIndex::new(),
            id_gen: IdGenerator::recover(watermark),
            metrics: Metrics::new(),
            suspension: Suspension::new(),
        }
    }
}

} // verus!
