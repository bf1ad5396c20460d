//! Poll: deliver the earliest visible message.

use crate::clock::{now_secs, visible_at, visible_time};
use crate::ctx::Ctx;
use crate::index::{is_deliverable, none_visible, Visibility};
use crate::keyed::{stage_visibility_update, visibility_update, WriteBatch};
use crate::metrics::{bump, bumped, Metrics};
use crate::op::result::{OpError, OpResult};
use crate::op::update::{bump_poll_tag, next_poll_tag};
use crate::slot::{
    next_poll_count, overlay, polled_fields, rewrite_polled_slot, slot_complete, slot_hash_valid,
    slot_prefix, stored_contents, stored_created_ts, stored_poll_count,
};
use crate::slot::utf8_to_string;
use crate::tag::{hex_encode, hex_of, random_token, token_hex, PollTag};
use vstd::prelude::*;
use vstd::utf8::{decode_utf8, valid_utf8};

verus! {

pub struct EndpointPollInput {
    pub visibility_timeout_secs: i64,
}

pub struct EndpointPollOutputMessage {
    pub contents: String,
    /// When the message was pushed, in seconds since the epoch.
    pub created: i64,
    pub index: u64,
    pub poll_count: u32,
    pub poll_tag: String,
}

pub struct EndpointPollOutput {
    pub message: Option<EndpointPollOutputMessage>,
}

/// A delivered message as mathematical values.
pub ghost struct Delivered {
    pub contents: Seq<char>,
    pub created: i64,
    pub index: u64,
    pub poll_count: u32,
    pub poll_tag: Seq<char>,
}

impl View for EndpointPollOutputMessage {
    type V = Delivered;

    open spec fn view(&self) -> Delivered {
        Delivered {
            contents: self.contents@,
            created: self.created,
            index: self.index,
            poll_count: self.poll_count,
            poll_tag: self.poll_tag@,
        }
    }
}

impl EndpointPollOutput {
    /// The answer to a poll that found nothing to deliver.
    pub fn empty() -> (out: EndpointPollOutput)
        ensures
            out.message is None,
    {
        EndpointPollOutput { message: None }
    }
}

/// A message taken out of the index for delivery.
#[derive(Clone, Copy, Debug, PartialEq, Eq, Structural)]
pub struct PollClaim {
    /// The message.
    pub id: u64,
    /// When the message becomes visible again unless it is deleted first.
    pub visible_ts: i64,
}

/// A delivery under the slot layout, staged and not yet durable.
pub struct PollDelivery {
    /// The new fixed part of the slot, to be written over its start.
    pub prefix: Vec<u8>,
    /// The tag of this delivery.
    pub poll_tag: PollTag,
    /// What to answer once the slot is durable and the poll is completed.
    pub output: EndpointPollOutput,
}

/// A delivery under the keyed layout, staged and not yet durable.
pub struct KeyedDelivery {
    /// The two metadata writes to commit as one batch.
    pub batch: WriteBatch,
    /// The tag of this delivery.
    pub poll_tag: u32,
}

/// What a poll answers when it delivers message `id` from `slot` under
/// `token`.
pub open spec fn delivered(id: u64, slot: Seq<u8>, token: Seq<u8>) -> Delivered {
    Delivered {
        contents: decode_utf8(stored_contents(slot)),
        created: stored_created_ts(slot),
        index: id,
        poll_count: next_poll_count(stored_poll_count(slot)),
        poll_tag: hex_of(token),
    }
}

/// What `endpoint_poll_at` does at time `now`: how the state `after` and
/// the result `res` follow from the state `before` and the request.
pub open spec fn poll_outcome(
    before: Ctx,
    req: EndpointPollInput,
    now: i64,
    after: Ctx,
    res: OpResult<Option<PollClaim>>,
) -> bool {
    &&& after.layout == before.layout
    &&& after.id_gen == before.id_gen
    &&& after.suspension == before.suspension
    &&& before.suspension.suspend_poll ==> {
        &&& res == Err::<Option<PollClaim>, OpError>(OpError::Suspended)
        &&& after.messages@ == before.messages@
        &&& after.metrics == (Metrics {
            suspended_poll_counter: bumped(before.metrics.suspended_poll_counter),
            ..before.metrics
        })
    }
    &&& !before.suspension.suspend_poll ==> match res {
        Ok(None) => {
            &&& none_visible(before.messages@, now)
            &&& after.messages@ == before.messages@
            &&& after.metrics == (Metrics {
                empty_poll_counter: bumped(before.metrics.empty_poll_counter),
                ..before.metrics
            })
        },
        Ok(Some(claim)) => {
            &&& is_deliverable(before.messages@, now, claim.id)
            &&& Some(claim.visible_ts) == visible_at(now, req.visibility_timeout_secs)
            &&& after.messages@ == before.messages@.remove(claim.id)
            &&& after.metrics == before.metrics
        },
        Err(_) => false,
    }
}

/// Starts a poll at time `now`.
///
/// While polls are suspended the request is refused and counted. If no
/// message is visible at `now` the poll is counted as empty and claims
/// nothing. Otherwise the message with the smallest `(visible_ts, id)`
/// leaves the index and is claimed, to become visible again at `now` plus
/// the timeout.
pub fn endpoint_poll_at(ctx: &mut Ctx, req: &EndpointPollInput, now: i64) -> (res: OpResult<
    Option<PollClaim>,
>)
    requires
        old(ctx).wf(),
        old(ctx).suspension.suspend_poll || visible_at(now, req.visibility_timeout_secs) is Some,
    ensures
        final(ctx).wf(),
        poll_outcome(*old(ctx), *req, now, *final(ctx), res),
{
    if ctx.suspension.is_poll_suspended() {
        bump(&mut ctx.metrics.suspended_poll_counter);
        return Err(OpError::Suspended);
    }
    match ctx.messages.remove_earliest_up_to(now) {
        None => {
            bump(&mut ctx.metrics.empty_poll_counter);
            Ok(None)
        },
        Some(id) => Ok(Some(PollClaim { id, visible_ts: now + req.visibility_timeout_secs })),
    }
}

/// Starts a poll at the current time.
///
/// `None`, with nothing changed, only if polls are not suspended and the
/// new visibility time does not fit in a timestamp, which a timeout of zero
/// never causes. Otherwise the outcome of `endpoint_poll_at` at the time
/// the clock gave.
pub fn endpoint_poll(ctx: &mut Ctx, req: &EndpointPollInput) -> (res: Option<
    OpResult<Option<PollClaim>>,
>)
    requires
        old(ctx).wf(),
    ensures
        final(ctx).wf(),
        res is None ==> {
            &&& *final(ctx) == *old(ctx)
            &&& !old(ctx).suspension.suspend_poll
            &&& exists|now: i64| #[trigger] visible_at(now, req.visibility_timeout_secs) is None
        },
        old(ctx).suspension.suspend_poll || req.visibility_timeout_secs == 0 ==> res is Some,
        res matches Some(r) ==> exists|now: i64| #[trigger]
            poll_outcome(*old(ctx), *req, now, *final(ctx), r) && (old(
                ctx,
            ).suspension.suspend_poll || visible_at(now, req.visibility_timeout_secs) is Some),
{
    let now = now_secs();
    if ctx.suspension.is_poll_suspended() || visible_time(now, req.visibility_timeout_secs).is_some() {
        let r = endpoint_poll_at(ctx, req, now);
        assert(poll_outcome(*old(ctx), *req, now, *ctx, r));
        Some(r)
    } else {
        assert(visible_at(now, req.visibility_timeout_secs) is None);
        None
    }
}

/// Stages the delivery of a claimed message under the slot layout, with
/// `token` as its tag: reads the message out of `slot` and builds the new
/// fixed part of the slot, whose hash covers the fixed fields only.
///
/// `None` if and only if the slot is too short for its fixed fields or for
/// the contents whose length it records, or the contents are not UTF-8.
pub fn deliver_with_token(claim: &PollClaim, slot: &[u8], token: [u8; 30]) -> (delivery: Option<
    PollDelivery,
>)
    ensures
        delivery is Some == (slot_complete(slot@) && valid_utf8(stored_contents(slot@))),
        delivery matches Some(d) ==> {
            &&& d.prefix@ == slot_prefix(
                polled_fields(slot@, token@, claim.visible_ts),
                stored_contents(slot@),
            )
            &&& d.prefix@.len() == 86
            &&& d.poll_tag == PollTag::Token(token)
            &&& d.output.message matches Some(message)
            &&& message@ == delivered(claim.id, slot@, token@)
            &&& slot_hash_valid(overlay(slot@, d.prefix@))
        },
{
    match rewrite_polled_slot(slot, token, claim.visible_ts) {
        None => None,
        Some(polled) => {
            let message = EndpointPollOutputMessage {
                contents: polled.contents,
                created: polled.created_ts,
                index: claim.id,
                poll_count: polled.poll_count,
                poll_tag: token_hex(&token),
            };
            Some(
                PollDelivery {
                    prefix: polled.prefix,
                    poll_tag: PollTag::Token(token),
                    output: EndpointPollOutput { message: Some(message) },
                },
            )
        },
    }
}

/// Stages the delivery of a claimed message under the slot layout, with a
/// fresh random token as its tag.
///
/// `None` on the same slots as `deliver_with_token`. Otherwise the result is
/// what `deliver_with_token` stages for the token it carries.
pub fn endpoint_poll_deliver(claim: &PollClaim, slot: &[u8]) -> (delivery: Option<PollDelivery>)
    ensures
        delivery is Some == (slot_complete(slot@) && valid_utf8(stored_contents(slot@))),
        delivery matches Some(d) ==> {
            &&& d.poll_tag matches PollTag::Token(token)
            &&& d.prefix@ == slot_prefix(
                polled_fields(slot@, token@, claim.visible_ts),
                stored_contents(slot@),
            )
            &&& d.prefix@.len() == 86
            &&& d.output.message matches Some(message)
            &&& message@ == delivered(claim.id, slot@, token@)
            &&& slot_hash_valid(overlay(slot@, d.prefix@))
        },
{
    deliver_with_token(claim, slot, random_token())
}

/// Stages the delivery of a claimed message under the keyed layout: the new
/// tag is the stored tag plus one, and it is written with the new
/// visibility time as one batch.
pub fn op_poll_deliver(claim: &PollClaim, stored_poll_tag: u32) -> (delivery: KeyedDelivery)
    ensures
        delivery.poll_tag == next_poll_tag(stored_poll_tag),
        delivery.batch@ == visibility_update(claim.id, delivery.poll_tag, claim.visible_ts),
{
    let poll_tag = bump_poll_tag(stored_poll_tag);
    let mut batch = WriteBatch::new();
    stage_visibility_update(&mut batch, claim.id, poll_tag, claim.visible_ts);
    assert(batch@ =~= visibility_update(claim.id, poll_tag, claim.visible_ts));
    KeyedDelivery { batch, poll_tag }
}

/// What a poll answers when it delivers message `id` of the keyed layout
/// with `contents` under the counter tag `poll_tag`. The keyed layout
/// stores neither a creation time nor a poll count: the answer carries the
/// epoch, and the tag, which counts deliveries and extensions. The tag is
/// rendered as the hexadecimal digits of its four big-endian bytes.
pub open spec fn keyed_delivered(id: u64, contents: Seq<u8>, poll_tag: u32) -> Delivered {
    Delivered {
        contents: decode_utf8(contents),
        created: 0,
        index: id,
        poll_count: poll_tag,
        poll_tag: hex_of(crate::bytes::u32_be(poll_tag)),
    }
}

/// The answer to a poll under the keyed layout, from the stored contents
/// of the claimed message and its staged delivery. `None` if and only if
/// the contents are not UTF-8.
pub fn keyed_poll_output(claim: &PollClaim, delivery: &KeyedDelivery, contents: Vec<u8>) -> (out:
    Option<EndpointPollOutput>)
    ensures
        out is Some == valid_utf8(contents@),
        out matches Some(o) ==> o.message matches Some(message) && message@ == keyed_delivered(
            claim.id,
            contents@,
            delivery.poll_tag,
        ),
{
    let mut raw: Vec<u8> = Vec::new();
    crate::bytes::push_u32_be(&mut raw, delivery.poll_tag);
    assert(raw@ =~= crate::bytes::u32_be(delivery.poll_tag));
    match utf8_to_string(contents) {
        None => None,
        Some(text) => Some(
            EndpointPollOutput {
                message: Some(
                    EndpointPollOutputMessage {
                        contents: text,
                        created: 0,
                        index: claim.id,
                        poll_count: delivery.poll_tag,
                        poll_tag: hex_encode(raw.as_slice()),
                    },
                ),
            },
        ),
    }
}

/// Completes a poll once the delivery is durable: the message returns to
/// the index under its new tag and visibility time, and the poll is
/// counted.
///
/// Returns false, with nothing changed, if and only if the id is in the
/// index already or was never handed out, which cannot happen to a claim
/// that `endpoint_poll_at` made and that is completed once.
pub fn endpoint_poll_complete(ctx: &mut Ctx, claim: &PollClaim, poll_tag: PollTag) -> (done: bool)
    requires
        old(ctx).wf(),
    ensures
        final(ctx).wf(),
        final(ctx).layout == old(ctx).layout,
        final(ctx).id_gen == old(ctx).id_gen,
        final(ctx).suspension == old(ctx).suspension,
        done == (!old(ctx).messages@.contains_key(claim.id) && claim.id < old(ctx).id_gen.next()),
        !done ==> final(ctx).messages@ == old(ctx).messages@ && final(ctx).metrics == old(
            ctx,
        ).metrics,
        done ==> {
            &&& final(ctx).messages@ == old(ctx).messages@.insert(
                claim.id,
                Visibility { visible_ts: claim.visible_ts, poll_tag },
            )
            &&& final(ctx).metrics == (Metrics {
                successful_poll_counter: bumped(old(ctx).metrics.successful_poll_counter),
                ..old(ctx).metrics
            })
        },
{
    if claim.id >= ctx.id_gen.peek_next() || !ctx.messages.insert(
        claim.id,
        claim.visible_ts,
        poll_tag,
    ) {
        return false;
    }
    bump(&mut ctx.metrics.successful_poll_counter);
    true
}

} // verus!
