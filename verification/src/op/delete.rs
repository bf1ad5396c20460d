//! Delete: acknowledge deliveries.

use crate::ctx::Ctx;
use crate::index::Visibility;
use crate::keyed::{message_removal, stage_message_removal, Mutation, WriteBatch};
use crate::metrics::{bump, bumped, bumped_by, Metrics};
use crate::op::result::{OpError, OpResult};
use crate::op::update::holds_delivery;
use crate::tag::PollTag;
use crate::vacant::{disjoint_from_live, VacantSet};
use vstd::prelude::*;

verus! {

#[derive(Clone, Copy, Debug, PartialEq, Eq, Structural)]
pub struct OpDeleteInputMessage {
    pub id: u64,
    pub poll_tag: u32,
}

pub struct OpDeleteInput {
    pub messages: Vec<OpDeleteInputMessage>,
}

#[derive(Clone, Copy, Debug, PartialEq, Eq, Structural)]
pub struct OpDeleteOutput {}

/// A delete whose removals are staged and not yet durable.
pub struct DeleteStaged {
    /// The removals to commit as one batch: three keys per message deleted.
    pub batch: WriteBatch,
    /// What to answer once the batch is durable.
    pub output: OpDeleteOutput,
}

/// The index after the first `n` requests of `msgs` were applied to `m` in
/// order: a request removes its message if it presents the message's
/// current tag, and changes nothing otherwise.
pub open spec fn index_after_delete(
    m: Map<u64, Visibility>,
    msgs: Seq<OpDeleteInputMessage>,
    n: int,
) -> Map<u64, Visibility>
    decreases n,
{
    if n <= 0 {
        m
    } else {
        let before = index_after_delete(m, msgs, n - 1);
        if holds_delivery(before, msgs[n - 1].id, msgs[n - 1].poll_tag) {
            before.remove(msgs[n - 1].id)
        } else {
            before
        }
    }
}

/// How many of the first `n` requests of `msgs` delete their message.
pub open spec fn deleted_count(
    m: Map<u64, Visibility>,
    msgs: Seq<OpDeleteInputMessage>,
    n: int,
) -> nat
    decreases n,
{
    if n <= 0 {
        0
    } else {
        let before = index_after_delete(m, msgs, n - 1);
        deleted_count(m, msgs, n - 1) + if holds_delivery(
            before,
            msgs[n - 1].id,
            msgs[n - 1].poll_tag,
        ) {
            1nat
        } else {
            0nat
        }
    }
}

/// The removals that the first `n` requests of `msgs` stage.
pub open spec fn delete_batch(
    m: Map<u64, Visibility>,
    msgs: Seq<OpDeleteInputMessage>,
    n: int,
) -> Seq<Mutation>
    decreases n,
{
    if n <= 0 {
        Seq::empty()
    } else {
        let before = index_after_delete(m, msgs, n - 1);
        delete_batch(m, msgs, n - 1) + if holds_delivery(
            before,
            msgs[n - 1].id,
            msgs[n - 1].poll_tag,
        ) {
            message_removal(msgs[n - 1].id)
        } else {
            Seq::empty()
        }
    }
}

/// Deletes the messages whose current tag the request presents.
///
/// While deletes are suspended the request is refused and counted. Otherwise
/// each entry is taken in order: one that presents the current tag of its
/// message removes the message from the index, stages the removal of its
/// three keys and counts as successful; any other changes nothing and
/// counts as missing, without being reported.
pub fn op_delete(ctx: &mut Ctx, req: &OpDeleteInput) -> (res: OpResult<DeleteStaged>)
    requires
        old(ctx).wf(),
    ensures
        final(ctx).wf(),
        final(ctx).layout == old(ctx).layout,
        final(ctx).id_gen == old(ctx).id_gen,
        final(ctx).suspension == old(ctx).suspension,
        old(ctx).suspension.suspend_delete ==> {
            &&& res == Err::<DeleteStaged, OpError>(OpError::Suspended)
            &&& final(ctx).messages@ == old(ctx).messages@
            &&& final(ctx).metrics == (Metrics {
                suspended_delete_counter: bumped(old(ctx).metrics.suspended_delete_counter),
                ..old(ctx).metrics
            })
        },
        !old(ctx).suspension.suspend_delete ==> {
            &&& res matches Ok(staged)
            &&& staged.batch@ == delete_batch(
                old(ctx).messages@,
                req.messages@,
                req.messages@.len() as int,
            )
            &&& final(ctx).messages@ == index_after_delete(
                old(ctx).messages@,
                req.messages@,
                req.messages@.len() as int,
            )
            &&& final(ctx).metrics == (Metrics {
                successful_delete_counter: bumped_by(
                    old(ctx).metrics.successful_delete_counter,
                    deleted_count(old(ctx).messages@, req.messages@, req.messages@.len() as int),
                ),
                missing_delete_counter: bumped_by(
                    old(ctx).metrics.missing_delete_counter,
                    (req.messages@.len() - deleted_count(
                        old(ctx).messages@,
                        req.messages@,
                        req.messages@.len() as int,
                    )) as nat,
                ),
                ..old(ctx).metrics
            })
        },
{
    if ctx.suspension.is_delete_suspended() {
        bump(&mut ctx.metrics.suspended_delete_counter);
        return Err(OpError::Suspended);
    }
    let mut batch = WriteBatch::new();
    let mut i: usize = 0;
    while i < req.messages.len()
        invariant
            0 <= i <= req.messages@.len(),
            ctx.wf(),
            ctx.layout == old(ctx).layout,
            ctx.id_gen == old(ctx).id_gen,
            ctx.suspension == old(ctx).suspension,
            deleted_count(old(ctx).messages@, req.messages@, i as int) <= i,
            batch@ == delete_batch(old(ctx).messages@, req.messages@, i as int),
            ctx.messages@ == index_after_delete(old(ctx).messages@, req.messages@, i as int),
            ctx.metrics == (Metrics {
                successful_delete_counter: bumped_by(
                    old(ctx).metrics.successful_delete_counter,
                    deleted_count(old(ctx).messages@, req.messages@, i as int),
                ),
                missing_delete_counter: bumped_by(
                    old(ctx).metrics.missing_delete_counter,
                    (i - deleted_count(old(ctx).messages@, req.messages@, i as int)) as nat,
                ),
                ..old(ctx).metrics
            }),
        decreases req.messages@.len() - i,
    {
        let m = req.messages[i];
        if ctx.messages.remove_if_poll_tag_matches(m.id, &PollTag::Counter(m.poll_tag)) {
            stage_message_removal(&mut batch, m.id);
            bump(&mut ctx.metrics.successful_delete_counter);
        } else {
            bump(&mut ctx.metrics.missing_delete_counter);
            assert(batch@ + Seq::<Mutation>::empty() =~= batch@);
        }
        i += 1;
    }
    Ok(DeleteStaged { batch, output: OpDeleteOutput {  } })
}

/// An acknowledgement under the slot layout: the id of the message and the
/// bytes of the token of its delivery.
pub struct SlotDeleteInputMessage {
    pub id: u64,
    pub poll_tag: Vec<u8>,
}

pub struct SlotDeleteInput {
    pub messages: Vec<SlotDeleteInputMessage>,
}

/// A delete under the slot layout whose slots are not yet marked vacant.
pub struct SlotDeleteStaged {
    /// The slots to mark vacant, in the order of the request: one for each
    /// message deleted.
    pub vacated: Vec<u64>,
    /// What to answer once the slots are durable.
    pub output: OpDeleteOutput,
}

/// Whether the index `m` holds `id` under the token whose bytes are
/// `poll_tag`. Bytes that are not thirty are no token.
pub open spec fn holds_token(m: Map<u64, Visibility>, id: u64, poll_tag: Seq<u8>) -> bool {
    &&& m.contains_key(id)
    &&& m[id].poll_tag matches PollTag::Token(token)
    &&& token@ == poll_tag
}

/// The token whose bytes are `bytes`, if they are thirty.
pub fn token_of(bytes: &[u8]) -> (token: Option<[u8; 30]>)
    ensures
        token is Some == (bytes@.len() == 30),
        token matches Some(t) ==> t@ == bytes@,
{
    if bytes.len() != 30 {
        return None;
    }
    let mut token = [0u8; 30];
    let mut i: usize = 0;
    while i < 30
        invariant
            0 <= i <= 30,
            bytes@.len() == 30,
            forall|j: int| 0 <= j < i ==> token@[j] == bytes@[j],
        decreases 30 - i,
    {
        token[i] = bytes[i];
        i += 1;
    }
    assert(token@ =~= bytes@);
    Some(token)
}

/// The index after the first `n` requests of `msgs` were applied to `m` in
/// order: a request removes its message if it presents the message's
/// current token, and changes nothing otherwise.
pub open spec fn index_after_slot_delete(
    m: Map<u64, Visibility>,
    msgs: Seq<SlotDeleteInputMessage>,
    n: int,
) -> Map<u64, Visibility>
    decreases n,
{
    if n <= 0 {
        m
    } else {
        let before = index_after_slot_delete(m, msgs, n - 1);
        if holds_token(before, msgs[n - 1].id, msgs[n - 1].poll_tag@) {
            before.remove(msgs[n - 1].id)
        } else {
            before
        }
    }
}

/// The ids that the first `n` requests of `msgs` delete, in order.
pub open spec fn slot_deleted_ids(
    m: Map<u64, Visibility>,
    msgs: Seq<SlotDeleteInputMessage>,
    n: int,
) -> Seq<u64>
    decreases n,
{
    if n <= 0 {
        Seq::empty()
    } else {
        let before = index_after_slot_delete(m, msgs, n - 1);
        if holds_token(before, msgs[n - 1].id, msgs[n - 1].poll_tag@) {
            slot_deleted_ids(m, msgs, n - 1).push(msgs[n - 1].id)
        } else {
            slot_deleted_ids(m, msgs, n - 1)
        }
    }
}

/// Deletes, under the slot layout, the messages whose current token the
/// request presents.
///
/// While deletes are suspended the request is refused and counted. Otherwise
/// each entry is taken in order: one that presents the current token of its
/// message removes the message from the index, stages its slot to be marked
/// vacant and counts as successful; any other changes nothing and counts as
/// missing, without being reported.
pub fn op_delete_slots(ctx: &mut Ctx, req: &SlotDeleteInput) -> (res: OpResult<SlotDeleteStaged>)
    requires
        old(ctx).wf(),
    ensures
        final(ctx).wf(),
        final(ctx).layout == old(ctx).layout,
        final(ctx).id_gen == old(ctx).id_gen,
        final(ctx).suspension == old(ctx).suspension,
        old(ctx).suspension.suspend_delete ==> {
            &&& res is Err
            &&& res->Err_0 == OpError::Suspended
            &&& final(ctx).messages@ == old(ctx).messages@
            &&& final(ctx).metrics == (Metrics {
                suspended_delete_counter: bumped(old(ctx).metrics.suspended_delete_counter),
                ..old(ctx).metrics
            })
        },
        !old(ctx).suspension.suspend_delete ==> {
            &&& res matches Ok(staged)
            &&& staged.vacated@ == slot_deleted_ids(
                old(ctx).messages@,
                req.messages@,
                req.messages@.len() as int,
            )
            &&& staged.vacated@.len() <= req.messages@.len()
            &&& final(ctx).messages@ == index_after_slot_delete(
                old(ctx).messages@,
                req.messages@,
                req.messages@.len() as int,
            )
            &&& final(ctx).metrics == (Metrics {
                successful_delete_counter: bumped_by(
                    old(ctx).metrics.successful_delete_counter,
                    staged.vacated@.len(),
                ),
                missing_delete_counter: bumped_by(
                    old(ctx).metrics.missing_delete_counter,
                    (req.messages@.len() - staged.vacated@.len()) as nat,
                ),
                ..old(ctx).metrics
            })
        },
{
    if ctx.suspension.is_delete_suspended() {
        bump(&mut ctx.metrics.suspended_delete_counter);
        return Err(OpError::Suspended);
    }
    let mut vacated: Vec<u64> = Vec::new();
    let mut i: usize = 0;
    while i < req.messages.len()
        invariant
            0 <= i <= req.messages@.len(),
            ctx.wf(),
            ctx.layout == old(ctx).layout,
            ctx.id_gen == old(ctx).id_gen,
            ctx.suspension == old(ctx).suspension,
            vacated@.len() <= i,
            vacated@ == slot_deleted_ids(old(ctx).messages@, req.messages@, i as int),
            ctx.messages@ == index_after_slot_delete(old(ctx).messages@, req.messages@, i as int),
            ctx.metrics == (Metrics {
                successful_delete_counter: bumped_by(
                    old(ctx).metrics.successful_delete_counter,
                    vacated@.len(),
                ),
                missing_delete_counter: bumped_by(
                    old(ctx).metrics.missing_delete_counter,
                    (i - vacated@.len()) as nat,
                ),
                ..old(ctx).metrics
            }),
        decreases req.messages@.len() - i,
    {
        let m = &req.messages[i];
        let ghost before = ctx.messages@;
        let removed = match token_of(m.poll_tag.as_slice()) {
            Some(token) => {
                let removed = ctx.messages.remove_if_poll_tag_matches(
                    m.id,
                    &PollTag::Token(token),
                );
                proof {
                    if before.contains_key(m.id) {
                        if let PollTag::Token(stored) = before[m.id].poll_tag {
                            if stored@ == m.poll_tag@ {
                                assert(stored =~= token);
                            }
                        }
                    }
                }
                removed
            },
            None => false,
        };
        assert(removed == holds_token(before, m.id, m.poll_tag@));
        if removed {
            vacated.push(m.id);
            bump(&mut ctx.metrics.successful_delete_counter);
        } else {
            bump(&mut ctx.metrics.missing_delete_counter);
        }
        i += 1;
    }
    Ok(SlotDeleteStaged { vacated, output: OpDeleteOutput {  } })
}

/// The vacant set after the first `n` of `slots` were released into
/// `vacant` in order, each unless it is live in the index `live`.
pub open spec fn vacant_after(vacant: Set<u64>, live: Map<u64, Visibility>, slots: Seq<u64>, n: int)
    -> Set<u64>
    decreases n,
{
    if n <= 0 {
        vacant
    } else if live.contains_key(slots[n - 1]) {
        vacant_after(vacant, live, slots, n - 1)
    } else {
        vacant_after(vacant, live, slots, n - 1).insert(slots[n - 1])
    }
}

/// Completes a delete under the slot layout once the slots are marked
/// vacant durably: each slot of a deleted message joins the vacant set,
/// unless a message is live in it again. No slot becomes both vacant and
/// live.
pub fn op_delete_slots_complete(ctx: &Ctx, vacant: &mut VacantSet, staged: SlotDeleteStaged) -> (out:
    OpDeleteOutput)
    requires
        ctx.wf(),
        old(vacant).wf(),
    ensures
        final(vacant).wf(),
        out == staged.output,
        final(vacant)@ == vacant_after(
            old(vacant)@,
            ctx.messages@,
            staged.vacated@,
            staged.vacated@.len() as int,
        ),
        disjoint_from_live(old(vacant)@, ctx.messages@) ==> disjoint_from_live(
            final(vacant)@,
            ctx.messages@,
        ),
{
    let mut i: usize = 0;
    while i < staged.vacated.len()
        invariant
            0 <= i <= staged.vacated@.len(),
            ctx.messages.wf(),
            vacant.wf(),
            vacant@ == vacant_after(old(vacant)@, ctx.messages@, staged.vacated@, i as int),
            disjoint_from_live(old(vacant)@, ctx.messages@) ==> disjoint_from_live(
                vacant@,
                ctx.messages@,
            ),
        decreases staged.vacated@.len() - i,
    {
        let _ = vacant.release(staged.vacated[i], &ctx.messages);
        i += 1;
    }
    staged.output
}

/// A delete presenting a tag other than the current one changes nothing; one
/// presenting the current tag removes the message.
pub proof fn lemma_delete_is_guarded_by_tag(m: Map<u64, Visibility>, request: OpDeleteInputMessage)
    ensures
        holds_delivery(m, request.id, request.poll_tag) ==> index_after_delete(m, seq![request], 1)
            == m.remove(request.id),
        !holds_delivery(m, request.id, request.poll_tag) ==> index_after_delete(
            m,
            seq![request],
            1,
        ) == m,
{
    reveal_with_fuel(index_after_delete, 2);
}

} // verus!
