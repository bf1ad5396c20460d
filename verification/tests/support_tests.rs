use queued::ctx::{Ctx, Layout};
use queued::index::VisibilityIndex;
use queued::op::push::{endpoint_push_at, EndpointPushInput, EndpointPushInputMessage};
use queued::keyed::{recover_keyed, stage_visibility_update, BatchOp, WriteBatch};
use queued::op::delete::{
    op_delete_slots, op_delete_slots_complete, token_of, SlotDeleteInput, SlotDeleteInputMessage,
};
use queued::op::result::OpError;
use queued::slot::{encode_new_slot, recover_slot, rewrite_polled_slot, slot_hash_matches, vacate_slot};
use queued::syncer::BatchSync;
use queued::tag::PollTag;
use queued::vacant::VacantSet;

#[test]
fn flush_in_flight_does_not_release_later_tickets() {
    let mut sync = BatchSync::new();
    let a = sync.submit(0).unwrap();
    assert_eq!(a, 0);
    assert!(sync.begin_flush());
    // Submitted while the flush is in flight.
    let b = sync.submit(0).unwrap();
    assert_eq!(b, 1);
    assert!(!sync.begin_flush());
    assert!(!sync.is_durable(a));
    assert!(sync.finish_flush());
    assert!(sync.is_durable(a));
    assert!(!sync.is_durable(b));
    // The next flush releases it.
    assert!(sync.begin_flush());
    assert!(sync.finish_flush());
    assert!(sync.is_durable(b));
}

#[test]
fn callers_in_one_window_share_a_flush() {
    let mut sync = BatchSync::new();
    let tickets: Vec<u64> = (0..5).map(|tag| sync.submit(tag).unwrap()).collect();
    assert_eq!(tickets, vec![0, 1, 2, 3, 4]);
    assert!(sync.begin_flush());
    assert!(sync.finish_flush());
    for t in tickets {
        assert!(sync.is_durable(t));
    }
    assert!(!sync.is_durable(5));
}

#[test]
fn no_flush_without_waiters() {
    let mut sync = BatchSync::new();
    assert!(!sync.begin_flush());
    assert!(!sync.finish_flush());
    let t = sync.submit(7).unwrap();
    assert!(sync.begin_flush());
    assert!(sync.finish_flush());
    assert!(sync.is_durable(t));
    assert!(!sync.begin_flush());
    assert!(!sync.finish_flush());
}

#[test]
fn vacant_set_hands_out_the_smallest_slot() {
    let mut vacant = VacantSet::new();
    assert_eq!(vacant.len(), 0);
    assert_eq!(vacant.remove_min(), None);
    assert!(vacant.insert(8));
    assert!(vacant.insert(3));
    assert!(vacant.insert(5));
    assert!(!vacant.insert(3));
    assert_eq!(vacant.len(), 3);
    assert!(vacant.contains(5));
    assert!(!vacant.contains(4));
    assert_eq!(vacant.remove_min(), Some(3));
    assert!(!vacant.contains(3));
    assert_eq!(vacant.remove_min(), Some(5));
    assert_eq!(vacant.remove_min(), Some(8));
    assert_eq!(vacant.remove_min(), None);
}

#[test]
fn live_slots_are_never_vacant() {
    let mut index = VisibilityIndex::new();
    assert!(index.insert(2, 0, PollTag::zero_token()));
    let mut vacant = VacantSet::new();
    assert!(!vacant.release(2, &index));
    assert!(!vacant.contains(2));
    assert!(vacant.release(4, &index));
    assert!(vacant.contains(4));
    assert!(index.remove_if_poll_tag_matches(2, &PollTag::zero_token()));
    assert!(vacant.release(2, &index));
    assert_eq!(vacant.remove_min(), Some(2));
}

#[test]
fn recovered_queue_resumes_at_the_watermark() {
    let mut ctx = Ctx::recover(Layout::Slot, 41);
    assert_eq!(ctx.id_gen.peek_next(), 41);
    assert_eq!(ctx.id_gen.watermark(), 41);
    assert!(ctx.messages.is_empty());
    let req = EndpointPushInput {
        messages: vec![EndpointPushInputMessage {
            contents: "after restart".to_string(),
            visibility_timeout_secs: 0,
        }],
    };
    let staged = endpoint_push_at(&mut ctx, &req, 0).unwrap();
    assert_eq!(staged.base_id, 41);
    assert_eq!(staged.creations[0].id, 41);
}

#[test]
fn stored_slots_are_recovered_if_valid_and_available() {
    let slot = encode_new_slot("m", 10, 70).unwrap();
    let (visible_ts, tag) = recover_slot(&slot).unwrap();
    assert_eq!(visible_ts, 70);
    assert!(tag.matches(&PollTag::Token([0u8; 30])));

    let polled = rewrite_polled_slot(&slot, [0x11u8; 30], 99).unwrap();
    let mut written = slot.clone();
    written[..86].copy_from_slice(&polled.prefix);
    let (visible_ts, tag) = recover_slot(&written).unwrap();
    assert_eq!(visible_ts, 99);
    assert!(tag.matches(&PollTag::Token([0x11u8; 30])));

    let mut damaged = slot.clone();
    damaged[75] ^= 1;
    assert!(recover_slot(&damaged).is_none());
    assert!(recover_slot(&slot[..80]).is_none());
    assert!(recover_slot(&[0u8; 1024]).is_none());

    // A vacant slot with a valid hash is not recovered.
    let mut vacant = slot.clone();
    vacant[33] = 0;
    let hash = blake3::hash(&vacant[32..]);
    vacant[..32].copy_from_slice(hash.as_bytes());
    assert!(slot_hash_matches(&vacant));
    assert!(recover_slot(&vacant).is_none());
}

#[test]
fn stored_key_pairs_are_recovered() {
    let mut batch = WriteBatch::new();
    stage_visibility_update(&mut batch, 3, 9, 1_700_000_000);
    let values: Vec<Vec<u8>> = batch
        .ops
        .iter()
        .map(|op| match op {
            BatchOp::Insert { value, .. } => value.clone(),
            BatchOp::Remove { .. } => panic!("an update stages inserts only"),
        })
        .collect();
    let (visible_ts, tag) = recover_keyed(&values[0], &values[1]).unwrap();
    assert_eq!(visible_ts, 1_700_000_000);
    assert!(tag.matches(&PollTag::Counter(9)));
    assert!(recover_keyed(&values[1], &values[0]).is_none());
    assert!(recover_keyed(&values[0], &[]).is_none());
    assert!(recover_keyed(&[1, 2, 3], &values[1]).is_none());
}

#[test]
fn restore_accepts_only_allocated_new_ids() {
    let mut ctx = Ctx::recover(Layout::Slot, 5);
    assert!(ctx.restore(4, 10, PollTag::zero_token()));
    assert!(!ctx.restore(4, 20, PollTag::zero_token()));
    assert!(!ctx.restore(5, 10, PollTag::zero_token()));
    assert!(ctx.restore(0, 30, PollTag::zero_token()));
    assert_eq!(ctx.messages.get(4).unwrap().visible_ts, 10);
    assert_eq!(ctx.messages.peek_earliest(), Some((10, 4)));
}

#[test]
fn vacated_slot_is_valid_and_not_recovered() {
    let mut slot = encode_new_slot("bye", 10, 70).unwrap();
    slot.resize(1024, 0);
    let polled = rewrite_polled_slot(&slot, [0x22u8; 30], 99).unwrap();
    slot[..86].copy_from_slice(&polled.prefix);
    assert!(recover_slot(&slot).is_some());

    let prefix = vacate_slot(&slot).unwrap();
    assert_eq!(prefix.len(), 86);
    assert_eq!(&prefix[0..32], blake3::hash(&prefix[32..86]).as_bytes());
    assert_eq!(prefix[32], 0);
    assert_eq!(prefix[33], 0);
    // The other fields stay as they were stored.
    assert_eq!(&prefix[34..86], &slot[34..86]);
    slot[..86].copy_from_slice(&prefix);
    assert!(slot_hash_matches(&slot));
    assert!(recover_slot(&slot).is_none());

    assert!(vacate_slot(&slot[..85]).is_none());
    assert!(vacate_slot(&slot[..88]).is_none());
    assert!(vacate_slot(&slot[..89]).is_some());
}

#[test]
fn tokens_are_thirty_bytes() {
    assert_eq!(token_of(&[7u8; 30]), Some([7u8; 30]));
    assert_eq!(token_of(&[7u8; 29]), None);
    assert_eq!(token_of(&[7u8; 31]), None);
    assert_eq!(token_of(&[]), None);
    let bytes: Vec<u8> = (0..30).collect();
    assert_eq!(token_of(&bytes).unwrap().to_vec(), bytes);
}

fn slot_delete(id: u64, poll_tag: &[u8]) -> SlotDeleteInputMessage {
    SlotDeleteInputMessage { id, poll_tag: poll_tag.to_vec() }
}

#[test]
fn slot_delete_needs_the_current_token() {
    let mut ctx = Ctx::recover(Layout::Slot, 5);
    assert!(ctx.restore(1, 0, PollTag::Token([1u8; 30])));
    assert!(ctx.restore(2, 0, PollTag::Token([2u8; 30])));
    assert!(ctx.restore(3, 0, PollTag::Token([3u8; 30])));
    assert!(ctx.restore(4, 0, PollTag::Counter(4)));
    let req = SlotDeleteInput {
        messages: vec![
            slot_delete(1, &[1u8; 30]),
            slot_delete(2, &[9u8; 30]),
            slot_delete(1, &[1u8; 30]),
            slot_delete(3, &[3u8; 29]),
            slot_delete(3, &[3u8; 30]),
            slot_delete(4, &[0, 0, 0, 4]),
            slot_delete(0, &[0u8; 30]),
        ],
    };
    let staged = op_delete_slots(&mut ctx, &req).unwrap();
    assert_eq!(staged.vacated, vec![1, 3]);
    assert_eq!(ctx.metrics.successful_delete_counter, 2);
    assert_eq!(ctx.metrics.missing_delete_counter, 5);
    assert!(!ctx.messages.contains(1));
    assert!(ctx.messages.contains(2));
    assert!(!ctx.messages.contains(3));
    assert!(ctx.messages.contains(4));

    // Slot 3 is taken again before the delete completes: it stays live.
    assert!(ctx.restore(3, 0, PollTag::zero_token()));
    let mut vacant = VacantSet::new();
    let _ = op_delete_slots_complete(&ctx, &mut vacant, staged);
    assert!(vacant.contains(1));
    assert!(!vacant.contains(3));
    assert_eq!(vacant.len(), 1);

    ctx.suspension.suspend_delete = true;
    assert!(matches!(op_delete_slots(&mut ctx, &req), Err(OpError::Suspended)));
    assert_eq!(ctx.metrics.suspended_delete_counter, 1);
    assert_eq!(ctx.metrics.missing_delete_counter, 5);
}
