//! Push: accept new messages.

use crate::clock::now_secs;
use crate::ctx::Ctx;
use crate::index::Visibility;
use crate::metrics::{bump, bumped, Metrics};
use crate::op::result::{OpError, OpResult};
use crate::tag::PollTag;
use vstd::prelude::*;
use vstd::string::StringSliceAdditionalSpecFns;
use vstd::utf8::encode_utf8;

verus! {

pub struct EndpointPushInputMessage {
    pub contents: String,
    pub visibility_timeout_secs: i64,
}

pub struct EndpointPushInput {
    pub messages: Vec<EndpointPushInputMessage>,
}

#[derive(Clone, Copy, Debug, PartialEq, Eq, Structural)]
pub enum EndpointPushOutputErrorType {
    ContentsTooLarge,
    InvalidVisibilityTimeout,
}

#[derive(Clone, Copy, Debug, PartialEq, Eq, Structural)]
pub struct EndpointPushOutputError {
    pub typ: EndpointPushOutputErrorType,
    pub index: usize,
}

pub struct EndpointPushOutput {
    pub errors: Vec<EndpointPushOutputError>,
}

/// A message that was accepted and is to be persisted.
pub struct MessageCreation {
    pub id: u64,
    pub contents: String,
    pub visible_time: i64,
}

/// An accepted message as mathematical values.
pub ghost struct Creation {
    pub id: u64,
    pub contents: Seq<char>,
    pub visible_time: i64,
}

impl View for MessageCreation {
    type V = Creation;

    open spec fn view(&self) -> Creation {
        Creation { id: self.id, contents: self.contents@, visible_time: self.visible_time }
    }
}

/// The views of a list of accepted messages.
pub open spec fn creations_view(list: Seq<MessageCreation>) -> Seq<Creation> {
    list.map_values(|c: MessageCreation| c@)
}

/// A push whose messages are staged and not yet durable.
pub struct PushStaged {
    /// The first id reserved for this push.
    pub base_id: u64,
    /// How many ids were reserved: one per accepted message.
    pub count: u64,
    /// The creation time of every message of this push.
    pub created_ts: i64,
    /// The accepted messages, in the order of the request.
    pub creations: Vec<MessageCreation>,
    /// What to answer once the messages are durable.
    pub output: EndpointPushOutput,
}

/// What completing a push yields.
pub struct PushCompleted {
    /// The answer to the request.
    pub output: EndpointPushOutput,
    /// The commit watermark to persist, unless the ids of the push were never
    /// handed out.
    pub watermark: Option<u64>,
    /// The ids of the staged messages that were not put into the index, in
    /// order: those that were in it already, and those never handed out.
    /// Empty for a push that `endpoint_push_at` staged and that is completed
    /// once.
    pub refused: Vec<u64>,
}

/// Why `message` is rejected under a limit of `max` bytes, if it is: its
/// contents are too long, or else its visibility timeout is negative.
pub open spec fn rejection(max: u64, message: EndpointPushInputMessage) -> Option<
    EndpointPushOutputErrorType,
> {
    if encode_utf8(message.contents@).len() > max {
        Some(EndpointPushOutputErrorType::ContentsTooLarge)
    } else if message.visibility_timeout_secs < 0 {
        Some(EndpointPushOutputErrorType::InvalidVisibilityTimeout)
    } else {
        None
    }
}

/// How many of the first `n` messages are accepted.
pub open spec fn accepted_count(max: u64, msgs: Seq<EndpointPushInputMessage>, n: int) -> nat
    decreases n,
{
    if n <= 0 {
        0
    } else {
        accepted_count(max, msgs, n - 1) + if rejection(max, msgs[n - 1]) is None {
            1nat
        } else {
            0nat
        }
    }
}

/// The errors reported for the first `n` messages, in order, each with the
/// position of its message in the request.
pub open spec fn push_errors(max: u64, msgs: Seq<EndpointPushInputMessage>, n: int) -> Seq<
    EndpointPushOutputError,
>
    decreases n,
{
    if n <= 0 {
        Seq::empty()
    } else {
        match rejection(max, msgs[n - 1]) {
            Some(typ) => push_errors(max, msgs, n - 1).push(
                EndpointPushOutputError { typ, index: (n - 1) as usize },
            ),
            None => push_errors(max, msgs, n - 1),
        }
    }
}

/// The messages accepted among the first `n`, in order: the k-th accepted
/// message gets the id `base + k` and becomes visible at `now` plus its
/// timeout.
pub open spec fn push_creations(
    max: u64,
    msgs: Seq<EndpointPushInputMessage>,
    base: u64,
    now: i64,
    n: int,
) -> Seq<Creation>
    decreases n,
{
    if n <= 0 {
        Seq::empty()
    } else {
        match rejection(max, msgs[n - 1]) {
            Some(_) => push_creations(max, msgs, base, now, n - 1),
            None => push_creations(max, msgs, base, now, n - 1).push(
                Creation {
                    id: (base + accepted_count(max, msgs, n - 1)) as u64,
                    contents: msgs[n - 1].contents@,
                    visible_time: (now + msgs[n - 1].visibility_timeout_secs) as i64,
                },
            ),
        }
    }
}

/// The ids and timestamps of the push fit their machine types: there are
/// enough ids left for the accepted messages, and each becomes visible at a
/// time that a timestamp can hold.
pub open spec fn push_fits(
    max: u64,
    msgs: Seq<EndpointPushInputMessage>,
    next_id: u64,
    now: i64,
) -> bool {
    &&& next_id + accepted_count(max, msgs, msgs.len() as int) <= u64::MAX
    &&& forall|i: int|
        0 <= i < msgs.len() && rejection(max, #[trigger] msgs[i]) is None ==> now
            + msgs[i].visibility_timeout_secs <= i64::MAX
}

/// Whether a staged message is kept out of the index `m`: its id is in the
/// index already, or is not below `next` and so was never handed out.
pub open spec fn is_refused(m: Map<u64, Visibility>, next: u64, c: Creation) -> bool {
    m.contains_key(c.id) || c.id >= next
}

/// The index after the first `n` of `creations` were added to `m` in order
/// under `tag`. A message that is refused changes nothing.
pub open spec fn index_after_push(
    m: Map<u64, Visibility>,
    creations: Seq<Creation>,
    tag: PollTag,
    next: u64,
    n: int,
) -> Map<u64, Visibility>
    decreases n,
{
    if n <= 0 {
        m
    } else {
        let before = index_after_push(m, creations, tag, next, n - 1);
        if is_refused(before, next, creations[n - 1]) {
            before
        } else {
            before.insert(
                creations[n - 1].id,
                Visibility { visible_ts: creations[n - 1].visible_time, poll_tag: tag },
            )
        }
    }
}

/// The ids refused among the first `n` of `creations`, in order.
pub open spec fn refused_ids(
    m: Map<u64, Visibility>,
    creations: Seq<Creation>,
    tag: PollTag,
    next: u64,
    n: int,
) -> Seq<u64>
    decreases n,
{
    if n <= 0 {
        Seq::empty()
    } else {
        let before = index_after_push(m, creations, tag, next, n - 1);
        if is_refused(before, next, creations[n - 1]) {
            refused_ids(m, creations, tag, next, n - 1).push(creations[n - 1].id)
        } else {
            refused_ids(m, creations, tag, next, n - 1)
        }
    }
}

/// The ids and timestamps of the push fit their machine types whatever the
/// time: there are enough ids left, and every accepted message has a timeout
/// of zero.
pub open spec fn push_always_fits(
    max: u64,
    msgs: Seq<EndpointPushInputMessage>,
    next_id: u64,
) -> bool {
    &&& next_id + accepted_count(max, msgs, msgs.len() as int) <= u64::MAX
    &&& forall|i: int|
        0 <= i < msgs.len() && rejection(max, #[trigger] msgs[i]) is None
            ==> msgs[i].visibility_timeout_secs == 0
}

/// Among fewer messages no more are accepted, and never more than there are.
pub proof fn lemma_accepted_count_grows(
    max: u64,
    msgs: Seq<EndpointPushInputMessage>,
    i: int,
    j: int,
)
    requires
        i <= j,
    ensures
        accepted_count(max, msgs, i) <= accepted_count(max, msgs, j),
        accepted_count(max, msgs, j) <= if j <= 0 {
            0
        } else {
            j
        },
    decreases j,
{
    if j > 0 {
        if i < j {
            lemma_accepted_count_grows(max, msgs, i, j - 1);
        } else {
            lemma_accepted_count_grows(max, msgs, j - 1, j - 1);
        }
    }
}

/// One creation per accepted message.
pub proof fn lemma_creations_len(
    max: u64,
    msgs: Seq<EndpointPushInputMessage>,
    base: u64,
    now: i64,
    n: int,
)
    ensures
        push_creations(max, msgs, base, now, n).len() == accepted_count(max, msgs, n),
    decreases n,
{
    if n > 0 {
        lemma_creations_len(max, msgs, base, now, n - 1);
    }
}

/// The accepted messages get the ids from `base` on, in order.
pub proof fn lemma_creation_ids(
    max: u64,
    msgs: Seq<EndpointPushInputMessage>,
    base: u64,
    now: i64,
    n: int,
    k: int,
)
    requires
        base + accepted_count(max, msgs, n) <= u64::MAX,
        0 <= k < push_creations(max, msgs, base, now, n).len(),
    ensures
        push_creations(max, msgs, base, now, n)[k].id == base + k,
    decreases n,
{
    if n > 0 {
        lemma_creations_len(max, msgs, base, now, n - 1);
        lemma_creations_len(max, msgs, base, now, n);
        if k < push_creations(max, msgs, base, now, n - 1).len() {
            lemma_creation_ids(max, msgs, base, now, n - 1, k);
        }
    }
}

/// A completed push publishes its messages: each staged message whose id
/// was handed out, is new to the index, and is staged once, is in the index
/// afterwards with its visibility time and the initial tag. From its
/// visibility time on, a poll does not come back empty and delivers that
/// message or an earlier one.
pub proof fn lemma_pushed_message_is_delivered(
    m: Map<u64, Visibility>,
    creations: Seq<Creation>,
    tag: PollTag,
    next: u64,
    i: int,
    now: i64,
    polled: u64,
)
    requires
        0 <= i < creations.len(),
        !is_refused(m, next, creations[i]),
        forall|j: int| 0 <= j < creations.len() && j != i ==> creations[j].id != creations[i].id,
        creations[i].visible_time <= now,
    ensures
        index_after_push(m, creations, tag, next, creations.len() as int)[creations[i].id] == (
        Visibility { visible_ts: creations[i].visible_time, poll_tag: tag }),
        index_after_push(m, creations, tag, next, creations.len() as int).contains_key(
            creations[i].id,
        ),
        !crate::index::none_visible(
            index_after_push(m, creations, tag, next, creations.len() as int),
            now,
        ),
        crate::index::is_deliverable(
            index_after_push(m, creations, tag, next, creations.len() as int),
            now,
            polled,
        ) ==> crate::index::key_le(
            index_after_push(m, creations, tag, next, creations.len() as int)[polled].visible_ts,
            polled,
            creations[i].visible_time,
            creations[i].id,
        ),
{
    lemma_push_publishes(m, creations, tag, next, i, creations.len() as int);
}

proof fn lemma_push_publishes(
    m: Map<u64, Visibility>,
    creations: Seq<Creation>,
    tag: PollTag,
    next: u64,
    i: int,
    n: int,
)
    requires
        0 <= i < creations.len(),
        0 <= n <= creations.len(),
        !is_refused(m, next, creations[i]),
        forall|j: int| 0 <= j < creations.len() && j != i ==> creations[j].id != creations[i].id,
    ensures
        n <= i ==> !index_after_push(m, creations, tag, next, n).contains_key(creations[i].id),
        n > i ==> index_after_push(m, creations, tag, next, n).contains_key(creations[i].id)
            && index_after_push(m, creations, tag, next, n)[creations[i].id] == (Visibility {
            visible_ts: creations[i].visible_time,
            poll_tag: tag,
        }),
    decreases n,
{
    if n > 0 {
        lemma_push_publishes(m, creations, tag, next, i, n - 1);
    }
}

/// A push on a well-formed state is registered in full. Where every id in
/// the index is below `base`, and the staged messages carry the ids from
/// `base` on, all of them handed out, completing the push refuses none, and
/// every staged message is in the index afterwards with its visibility time
/// and the initial tag. This is the state that `endpoint_push_at` leaves.
pub proof fn lemma_fresh_push_is_registered(
    m: Map<u64, Visibility>,
    creations: Seq<Creation>,
    tag: PollTag,
    base: u64,
    next: u64,
    n: int,
)
    requires
        crate::ctx::ids_allocated(m, base),
        0 <= n <= creations.len(),
        base + creations.len() <= next,
        forall|k: int| 0 <= k < creations.len() ==> (#[trigger] creations[k]).id == base + k,
    ensures
        refused_ids(m, creations, tag, next, n) == Seq::<u64>::empty(),
        crate::ctx::ids_allocated(index_after_push(m, creations, tag, next, n), next),
        forall|id: u64| #[trigger]
            index_after_push(m, creations, tag, next, n).contains_key(id) ==> id < base + n,
        forall|k: int|
            0 <= k < n ==> index_after_push(m, creations, tag, next, n).contains_key(
                (#[trigger] creations[k]).id,
            ) && index_after_push(m, creations, tag, next, n)[creations[k].id] == (Visibility {
                visible_ts: creations[k].visible_time,
                poll_tag: tag,
            }),
    decreases n,
{
    if n > 0 {
        lemma_fresh_push_is_registered(m, creations, tag, base, next, n - 1);
        let before = index_after_push(m, creations, tag, next, n - 1);
        assert(creations[n - 1].id == base + (n - 1));
        assert(!before.contains_key(creations[n - 1].id));
        assert(!is_refused(before, next, creations[n - 1]));
        assert forall|k: int| 0 <= k < n implies index_after_push(
            m,
            creations,
            tag,
            next,
            n,
        ).contains_key((#[trigger] creations[k]).id) && index_after_push(
            m,
            creations,
            tag,
            next,
            n,
        )[creations[k].id] == (Visibility {
            visible_ts: creations[k].visible_time,
            poll_tag: tag,
        }) by {
            if k < n - 1 {
                assert(creations[k].id == base + k);
                assert(before.contains_key(creations[k].id));
            }
        }
    }
}

/// A push that is staged on a well-formed state and completed on the state
/// it left is registered in full: completing it refuses no message, and
/// every accepted message is in the index afterwards with its visibility
/// time and the initial tag.
pub proof fn lemma_staged_push_is_registered(
    before: Ctx,
    req: EndpointPushInput,
    now: i64,
    after: Ctx,
    staged: PushStaged,
    tag: PollTag,
)
    requires
        before.wf(),
        !before.suspension.suspend_push,
        push_fits(before.layout.max_len(), req.messages@, before.id_gen.next(), now),
        push_outcome(before, req, now, after, Ok(staged)),
    ensures
        refused_ids(
            after.messages@,
            creations_view(staged.creations@),
            tag,
            after.id_gen.next(),
            staged.creations@.len() as int,
        ) == Seq::<u64>::empty(),
        forall|k: int|
            0 <= k < staged.creations@.len() ==> {
                let published = index_after_push(
                    after.messages@,
                    creations_view(staged.creations@),
                    tag,
                    after.id_gen.next(),
                    staged.creations@.len() as int,
                );
                let c = #[trigger] creations_view(staged.creations@)[k];
                published.contains_key(c.id) && published[c.id] == (Visibility {
                    visible_ts: c.visible_time,
                    poll_tag: tag,
                })
            },
{
    let max = before.layout.max_len();
    let msgs = req.messages@;
    let base = before.id_gen.next();
    let list = creations_view(staged.creations@);
    let n = msgs.len() as int;
    lemma_creations_len(max, msgs, base, now, n);
    assert forall|k: int| 0 <= k < list.len() implies (#[trigger] list[k]).id == base + k by {
        lemma_creation_ids(max, msgs, base, now, n, k);
    }
    lemma_fresh_push_is_registered(
        after.messages@,
        list,
        tag,
        base,
        after.id_gen.next(),
        list.len() as int,
    );
}

/// A push that is staged on a well-formed state and completed on the state
/// it left can be polled: from the visibility time of any of its messages
/// on, a poll does not come back empty, and it delivers that message or one
/// that comes before it.
pub proof fn lemma_staged_push_is_delivered(
    before: Ctx,
    req: EndpointPushInput,
    now: i64,
    after: Ctx,
    staged: PushStaged,
    tag: PollTag,
    k: int,
    poll_time: i64,
    polled: u64,
)
    requires
        before.wf(),
        !before.suspension.suspend_push,
        push_fits(before.layout.max_len(), req.messages@, before.id_gen.next(), now),
        push_outcome(before, req, now, after, Ok(staged)),
        0 <= k < staged.creations@.len(),
        staged.creations@[k].visible_time <= poll_time,
    ensures
        ({
            let published = index_after_push(
                after.messages@,
                creations_view(staged.creations@),
                tag,
                after.id_gen.next(),
                staged.creations@.len() as int,
            );
            &&& !crate::index::none_visible(published, poll_time)
            &&& crate::index::is_deliverable(published, poll_time, polled) ==> crate::index::key_le(
                published[polled].visible_ts,
                polled,
                staged.creations@[k].visible_time,
                staged.creations@[k].id,
            )
        }),
{
    lemma_staged_push_is_registered(before, req, now, after, staged, tag);
    let published = index_after_push(
        after.messages@,
        creations_view(staged.creations@),
        tag,
        after.id_gen.next(),
        staged.creations@.len() as int,
    );
    let c = creations_view(staged.creations@)[k];
    assert(c == staged.creations@[k]@);
    assert(published.contains_key(c.id) && published[c.id].visible_ts == c.visible_time);
    crate::index::lemma_visible_message_is_delivered(published, c.id, poll_time, polled);
}

/// Whether the ids and timestamps of the push fit their machine types.
pub fn push_fits_now(ctx: &Ctx, req: &EndpointPushInput, now: i64) -> (fits: bool)
    ensures
        fits == push_fits(ctx.layout.max_len(), req.messages@, ctx.id_gen.next(), now),
{
    let max = ctx.layout.max_contents_len();
    let ghost msgs = req.messages@;
    let mut accepted: u64 = 0;
    let mut i: usize = 0;
    while i < req.messages.len()
        invariant
            0 <= i <= msgs.len(),
            msgs == req.messages@,
            max == ctx.layout.max_len(),
            accepted == accepted_count(max, msgs, i as int),
            accepted <= i,
            forall|j: int|
                0 <= j < i && rejection(max, #[trigger] msgs[j]) is None ==> now
                    + msgs[j].visibility_timeout_secs <= i64::MAX,
        decreases msgs.len() - i,
    {
        let m = &req.messages[i];
        assert(*m == msgs[i as int]);
        if m.contents.as_str().as_bytes().len() as u64 <= max && m.visibility_timeout_secs >= 0 {
            assert(rejection(max, msgs[i as int]) is None);
            if now.checked_add(m.visibility_timeout_secs).is_none() {
                return false;
            }
            accepted = accepted + 1;
        } else {
            assert(rejection(max, msgs[i as int]) is Some);
        }
        i += 1;
    }
    ctx.id_gen.has_room(accepted)
}

/// What `endpoint_push_at` does at time `now`: how the state `after` and
/// the result `res` follow from the state `before` and the request.
pub open spec fn push_outcome(
    before: Ctx,
    req: EndpointPushInput,
    now: i64,
    after: Ctx,
    res: OpResult<PushStaged>,
) -> bool {
    &&& after.layout == before.layout
    &&& after.messages == before.messages
    &&& after.suspension == before.suspension
    &&& after.id_gen.committed() == before.id_gen.committed()
    &&& before.suspension.suspend_push ==> {
        &&& res is Err
        &&& res->Err_0 == OpError::Suspended
        &&& after.id_gen == before.id_gen
        &&& after.metrics == (Metrics {
            suspended_push_counter: bumped(before.metrics.suspended_push_counter),
            ..before.metrics
        })
    }
    &&& !before.suspension.suspend_push ==> {
        &&& res matches Ok(staged)
        &&& staged.base_id == before.id_gen.next()
        &&& staged.count == accepted_count(
            before.layout.max_len(),
            req.messages@,
            req.messages@.len() as int,
        )
        &&& staged.created_ts == now
        &&& creations_view(staged.creations@) == push_creations(
            before.layout.max_len(),
            req.messages@,
            staged.base_id,
            now,
            req.messages@.len() as int,
        )
        &&& staged.output.errors@ == push_errors(
            before.layout.max_len(),
            req.messages@,
            req.messages@.len() as int,
        )
        &&& after.id_gen.next() == before.id_gen.next() + staged.count
        &&& after.metrics == before.metrics
    }
}

/// Starts a push at time `now`.
///
/// While pushes are suspended the request is refused and counted. Otherwise
/// each message is checked on its own: one whose contents are longer than
/// the layout allows is reported as `ContentsTooLarge`, one with a negative
/// timeout as `InvalidVisibilityTimeout`, and the others are accepted. One
/// id is reserved per accepted message, and the result stages the accepted
/// messages under those ids, in order, each visible at `now` plus its
/// timeout.
pub fn endpoint_push_at(ctx: &mut Ctx, req: &EndpointPushInput, now: i64) -> (res: OpResult<
    PushStaged,
>)
    requires
        old(ctx).wf(),
        old(ctx).suspension.suspend_push || push_fits(
            old(ctx).layout.max_len(),
            req.messages@,
            old(ctx).id_gen.next(),
            now,
        ),
    ensures
        final(ctx).wf(),
        push_outcome(*old(ctx), *req, now, *final(ctx), res),
{
    if ctx.suspension.is_push_suspended() {
        bump(&mut ctx.metrics.suspended_push_counter);
        return Err(OpError::Suspended);
    }
    let max = ctx.layout.max_contents_len();
    let base = ctx.id_gen.peek_next();
    let ghost msgs = req.messages@;
    let mut errors: Vec<EndpointPushOutputError> = Vec::new();
    let mut creations: Vec<MessageCreation> = Vec::new();
    let mut accepted: u64 = 0;
    let mut i: usize = 0;
    while i < req.messages.len()
        invariant
            0 <= i <= msgs.len(),
            msgs == req.messages@,
            push_fits(max, msgs, base, now),
            accepted == accepted_count(max, msgs, i as int),
            errors@ == push_errors(max, msgs, i as int),
            creations_view(creations@) == push_creations(max, msgs, base, now, i as int),
        decreases msgs.len() - i,
    {
        let m = &req.messages[i];
        assert(*m == msgs[i as int]);
        proof {
            lemma_accepted_count_grows(max, msgs, i + 1, msgs.len() as int);
        }
        if m.contents.as_str().as_bytes().len() as u64 > max {
            errors.push(
                EndpointPushOutputError {
                    typ: EndpointPushOutputErrorType::ContentsTooLarge,
                    index: i,
                },
            );
        } else if m.visibility_timeout_secs < 0 {
            errors.push(
                EndpointPushOutputError {
                    typ: EndpointPushOutputErrorType::InvalidVisibilityTimeout,
                    index: i,
                },
            );
        } else {
            assert(rejection(max, msgs[i as int]) is None);
            let creation = MessageCreation {
                id: base + accepted,
                contents: m.contents.clone(),
                visible_time: now + m.visibility_timeout_secs,
            };
            let ghost before = creations@;
            creations.push(creation);
            assert(creations_view(creations@) =~= creations_view(before).push(creation@));
            accepted = accepted + 1;
        }
        i += 1;
    }
    let base_id = ctx.id_gen.generate(accepted);
    Ok(
        PushStaged {
            base_id,
            count: accepted,
            created_ts: now,
            creations,
            output: EndpointPushOutput { errors },
        },
    )
}

/// Starts a push at the current time.
///
/// `None`, with nothing changed, only if pushes are not suspended and the
/// ids or timestamps of the push do not fit their machine types, which
/// cannot be while ids are left and every accepted message has a timeout of
/// zero. Otherwise the outcome of `endpoint_push_at` at the time the clock
/// gave.
pub fn endpoint_push(ctx: &mut Ctx, req: &EndpointPushInput) -> (res: Option<OpResult<PushStaged>>)
    requires
        old(ctx).wf(),
    ensures
        final(ctx).wf(),
        res is None ==> {
            &&& *final(ctx) == *old(ctx)
            &&& !old(ctx).suspension.suspend_push
            &&& exists|now: i64|
                !#[trigger] push_fits(
                    old(ctx).layout.max_len(),
                    req.messages@,
                    old(ctx).id_gen.next(),
                    now,
                )
        },
        old(ctx).suspension.suspend_push || push_always_fits(
            old(ctx).layout.max_len(),
            req.messages@,
            old(ctx).id_gen.next(),
        ) ==> res is Some,
        res matches Some(r) ==> exists|now: i64| #[trigger]
            push_outcome(*old(ctx), *req, now, *final(ctx), r) && (old(
                ctx,
            ).suspension.suspend_push || push_fits(
                old(ctx).layout.max_len(),
                req.messages@,
                old(ctx).id_gen.next(),
                now,
            )),
{
    let now = now_secs();
    if ctx.suspension.is_push_suspended() || push_fits_now(ctx, req, now) {
        let r = endpoint_push_at(ctx, req, now);
        assert(push_outcome(*old(ctx), *req, now, *ctx, r));
        Some(r)
    } else {
        assert(!push_fits(ctx.layout.max_len(), req.messages@, ctx.id_gen.next(), now));
        None
    }
}

/// Completes a push once its messages are durable: commits the ids, makes
/// each accepted message known to the index under the layout's initial tag,
/// and counts the push. A staged message whose id is in the index already,
/// or was never handed out, is not put into the index and is reported.
pub fn endpoint_push_complete(ctx: &mut Ctx, staged: PushStaged) -> (done: PushCompleted)
    requires
        old(ctx).wf(),
    ensures
        final(ctx).wf(),
        final(ctx).layout == old(ctx).layout,
        final(ctx).suspension == old(ctx).suspension,
        done.output == staged.output,
        final(ctx).id_gen.next() == old(ctx).id_gen.next(),
        done.watermark is Some == (staged.base_id + staged.count <= old(ctx).id_gen.next()),
        done.watermark matches Some(w) ==> w == final(ctx).id_gen.committed() && w
            == crate::id_gen::watermark_after(
            old(ctx).id_gen.committed(),
            staged.base_id,
            staged.count,
        ),
        done.watermark is None ==> final(ctx).id_gen.committed() == old(ctx).id_gen.committed(),
        exists|tag: PollTag|
            {
                &&& old(ctx).layout.is_initial_tag(tag)
                &&& final(ctx).messages@ == index_after_push(
                    old(ctx).messages@,
                    creations_view(staged.creations@),
                    tag,
                    old(ctx).id_gen.next(),
                    staged.creations@.len() as int,
                )
                &&& done.refused@ == refused_ids(
                    old(ctx).messages@,
                    creations_view(staged.creations@),
                    tag,
                    old(ctx).id_gen.next(),
                    staged.creations@.len() as int,
                )
            },
        final(ctx).metrics == (Metrics {
            successful_push_counter: bumped(old(ctx).metrics.successful_push_counter),
            ..old(ctx).metrics
        }),
{
    let watermark = ctx.id_gen.commit(staged.base_id, staged.count);
    let tag = ctx.layout.initial_poll_tag();
    let next = ctx.id_gen.peek_next();
    let ghost list = creations_view(staged.creations@);
    let mut refused: Vec<u64> = Vec::new();
    let mut i: usize = 0;
    while i < staged.creations.len()
        invariant
            0 <= i <= staged.creations@.len(),
            list == creations_view(staged.creations@),
            next == old(ctx).id_gen.next(),
            ctx.messages.wf(),
            crate::ctx::ids_allocated(ctx.messages@, next),
            ctx.messages@ == index_after_push(old(ctx).messages@, list, tag, next, i as int),
            refused@ == refused_ids(old(ctx).messages@, list, tag, next, i as int),
            ctx.layout == old(ctx).layout,
            ctx.suspension == old(ctx).suspension,
            ctx.metrics == old(ctx).metrics,
            ctx.id_gen.wf(),
            ctx.id_gen.next() == old(ctx).id_gen.next(),
            watermark is Some ==> watermark->Some_0 == ctx.id_gen.committed(),
            watermark is None ==> ctx.id_gen.committed() == old(ctx).id_gen.committed(),
        decreases staged.creations@.len() - i,
    {
        let c = &staged.creations[i];
        assert(list[i as int] == c@);
        if c.id >= next || !ctx.messages.insert(c.id, c.visible_time, tag) {
            refused.push(c.id);
        }
        i += 1;
    }
    bump(&mut ctx.metrics.successful_push_counter);
    PushCompleted { output: staged.output, watermark, refused }
}

} // verus!
