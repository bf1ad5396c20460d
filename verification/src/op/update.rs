//! Update: extend the visibility timeout of a delivery.

use crate::clock::{now_secs, visible_at, visible_time};
use crate::ctx::Ctx;
use crate::index::Visibility;
use crate::keyed::{stage_visibility_update, visibility_update, WriteBatch};
use crate::metrics::{bump, bumped, Metrics};
use crate::op::result::{OpError, OpResult};
use crate::tag::PollTag;
use vstd::prelude::*;

verus! {

pub struct OpUpdateInput {
    pub id: u64,
    pub poll_tag: u32,
    pub visibility_timeout_secs: i64,
}

#[derive(Clone, Copy, Debug, PartialEq, Eq, Structural)]
pub struct OpUpdateOutput {
    pub new_poll_tag: u32,
}

/// An update whose metadata is staged and not yet durable.
pub struct UpdateStaged {
    pub id: u64,
    pub new_visible_ts: i64,
    pub new_poll_tag: u32,
    /// The two metadata writes to commit as one batch.
    pub batch: WriteBatch,
}

/// The tag that follows `tag`. Counter tags wrap at 2^32.
pub open spec fn next_poll_tag(tag: u32) -> u32 {
    if tag == u32::MAX {
        0
    } else {
        (tag + 1) as u32
    }
}

/// The tag that follows `tag`.
pub fn bump_poll_tag(tag: u32) -> (next: u32)
    ensures
        next == next_poll_tag(tag),
{
    if tag == u32::MAX {
        0
    } else {
        tag + 1
    }
}

/// Whether the index `m` holds `id` under the counter tag `poll_tag`.
pub open spec fn holds_delivery(m: Map<u64, Visibility>, id: u64, poll_tag: u32) -> bool {
    m.contains_key(id) && m[id].poll_tag == PollTag::Counter(poll_tag)
}

/// What `op_update_at` does at time `now`: how the state `after` and the
/// result `res` follow from the state `before` and the request.
pub open spec fn update_outcome(
    before: Ctx,
    req: OpUpdateInput,
    now: i64,
    after: Ctx,
    res: OpResult<UpdateStaged>,
) -> bool {
    &&& after.layout == before.layout
    &&& after.id_gen == before.id_gen
    &&& after.suspension == before.suspension
    &&& before.suspension.suspend_update ==> {
        &&& res == Err::<UpdateStaged, OpError>(OpError::Suspended)
        &&& after.messages@ == before.messages@
        &&& after.metrics == (Metrics {
            suspended_update_counter: bumped(before.metrics.suspended_update_counter),
            ..before.metrics
        })
    }
    &&& !before.suspension.suspend_update && !holds_delivery(
        before.messages@,
        req.id,
        req.poll_tag,
    ) ==> {
        &&& res == Err::<UpdateStaged, OpError>(OpError::MessageNotFound)
        &&& after.messages@ == before.messages@
        &&& after.metrics == (Metrics {
            missing_update_counter: bumped(before.metrics.missing_update_counter),
            ..before.metrics
        })
    }
    &&& !before.suspension.suspend_update && holds_delivery(
        before.messages@,
        req.id,
        req.poll_tag,
    ) ==> {
        &&& res matches Ok(staged)
        &&& staged.id == req.id
        &&& Some(staged.new_visible_ts) == visible_at(now, req.visibility_timeout_secs)
        &&& staged.new_poll_tag == next_poll_tag(req.poll_tag)
        &&& staged.batch@ == visibility_update(req.id, staged.new_poll_tag, staged.new_visible_ts)
        &&& after.messages@ == before.messages@.remove(req.id)
        &&& after.metrics == before.metrics
    }
}

/// Starts an update at time `now`.
///
/// While updates are suspended the request is refused and counted. A
/// request whose tag is not the current tag of its message is refused with
/// `MessageNotFound` and counted as missing. Otherwise the message leaves
/// the index and the result stages its new tag, the old one plus one, and
/// its new visibility time, `now` plus the timeout.
pub fn op_update_at(ctx: &mut Ctx, req: &OpUpdateInput, now: i64) -> (res: OpResult<UpdateStaged>)
    requires
        old(ctx).wf(),
        old(ctx).suspension.suspend_update || !holds_delivery(
            old(ctx).messages@,
            req.id,
            req.poll_tag,
        ) || visible_at(now, req.visibility_timeout_secs) is Some,
    ensures
        final(ctx).wf(),
        update_outcome(*old(ctx), *req, now, *final(ctx), res),
{
    if ctx.suspension.is_update_suspended() {
        bump(&mut ctx.metrics.suspended_update_counter);
        return Err(OpError::Suspended);
    }
    if !ctx.messages.remove_if_poll_tag_matches(req.id, &PollTag::Counter(req.poll_tag)) {
        bump(&mut ctx.metrics.missing_update_counter);
        return Err(OpError::MessageNotFound);
    }
    let new_visible_ts = now + req.visibility_timeout_secs;
    let new_poll_tag = bump_poll_tag(req.poll_tag);
    let mut batch = WriteBatch::new();
    stage_visibility_update(&mut batch, req.id, new_poll_tag, new_visible_ts);
    assert(batch@ =~= visibility_update(req.id, new_poll_tag, new_visible_ts));
    Ok(UpdateStaged { id: req.id, new_visible_ts, new_poll_tag, batch })
}

/// Whether the index holds `id` under the counter tag `poll_tag`.
pub fn has_delivery(ctx: &Ctx, id: u64, poll_tag: u32) -> (held: bool)
    requires
        ctx.messages.wf(),
    ensures
        held == holds_delivery(ctx.messages@, id, poll_tag),
{
    match ctx.messages.get(id) {
        Some(v) => v.poll_tag.matches(&PollTag::Counter(poll_tag)),
        None => false,
    }
}

/// Starts an update at the current time.
///
/// The switch and the tag are tested before the time matters: a suspended
/// update and one that presents a tag other than the current one are
/// answered as by `op_update_at`, whatever the timeout. `None`, with nothing
/// changed, only if the tag is the current one and the new visibility time
/// does not fit in a timestamp, which a timeout of zero never causes.
/// Otherwise the outcome of `op_update_at` at the time the clock gave.
pub fn op_update(ctx: &mut Ctx, req: &OpUpdateInput) -> (res: Option<OpResult<UpdateStaged>>)
    requires
        old(ctx).wf(),
    ensures
        final(ctx).wf(),
        res is None ==> {
            &&& *final(ctx) == *old(ctx)
            &&& !old(ctx).suspension.suspend_update
            &&& holds_delivery(old(ctx).messages@, req.id, req.poll_tag)
            &&& exists|now: i64| #[trigger] visible_at(now, req.visibility_timeout_secs) is None
        },
        old(ctx).suspension.suspend_update || !holds_delivery(
            old(ctx).messages@,
            req.id,
            req.poll_tag,
        ) || req.visibility_timeout_secs == 0 ==> res is Some,
        res matches Some(r) ==> exists|now: i64| #[trigger]
            update_outcome(*old(ctx), *req, now, *final(ctx), r) && (old(
                ctx,
            ).suspension.suspend_update || !holds_delivery(
                old(ctx).messages@,
                req.id,
                req.poll_tag,
            ) || visible_at(now, req.visibility_timeout_secs) is Some),
{
    let now = now_secs();
    if ctx.suspension.is_update_suspended() || !has_delivery(ctx, req.id, req.poll_tag)
        || visible_time(now, req.visibility_timeout_secs).is_some() {
        let r = op_update_at(ctx, req, now);
        assert(update_outcome(*old(ctx), *req, now, *ctx, r));
        Some(r)
    } else {
        assert(visible_at(now, req.visibility_timeout_secs) is None);
        None
    }
}

/// Completes an update once its batch is durable: the message returns to
/// the index under its new tag and visibility time, and the update is
/// counted.
///
/// `None`, with nothing changed, if and only if the id is in the index
/// already or was never handed out, which cannot happen to an update that
/// `op_update_at` staged and that is completed once.
pub fn op_update_complete(ctx: &mut Ctx, staged: &UpdateStaged) -> (out: Option<OpUpdateOutput>)
    requires
        old(ctx).wf(),
    ensures
        final(ctx).wf(),
        final(ctx).layout == old(ctx).layout,
        final(ctx).id_gen == old(ctx).id_gen,
        final(ctx).suspension == old(ctx).suspension,
        out is Some == (!old(ctx).messages@.contains_key(staged.id) && staged.id < old(
            ctx,
        ).id_gen.next()),
        out is None ==> final(ctx).messages@ == old(ctx).messages@ && final(ctx).metrics == old(
            ctx,
        ).metrics,
        out matches Some(o) ==> {
            &&& o.new_poll_tag == staged.new_poll_tag
            &&& final(ctx).messages@ == old(ctx).messages@.insert(
                staged.id,
                Visibility {
                    visible_ts: staged.new_visible_ts,
                    poll_tag: PollTag::Counter(staged.new_poll_tag),
                },
            )
            &&& final(ctx).metrics == (Metrics {
                successful_update_counter: bumped(old(ctx).metrics.successful_update_counter),
                ..old(ctx).metrics
            })
        },
{
    if staged.id >= ctx.id_gen.peek_next() || !ctx.messages.insert(
        staged.id,
        staged.new_visible_ts,
        PollTag::Counter(staged.new_poll_tag),
    ) {
        return None;
    }
    bump(&mut ctx.metrics.successful_update_counter);
    Some(OpUpdateOutput { new_poll_tag: staged.new_poll_tag })
}

} // verus!
