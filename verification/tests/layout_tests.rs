use queued::bytes::{
    push_i64_be, push_u16_be, push_u32_be, push_u64_be, read_i64_be, read_u16_be, read_u32_be,
    read_u64_be, signed_from_twos_complement, to_twos_complement,
};
use queued::id_gen::IdGenerator;
use queued::keyed::{
    decode_poll_tag, decode_visible_ts, rocksdb_key, stage_message_creation, stage_message_removal, stage_visibility_update, BatchOp,
    RocksDbKeyPrefix, WriteBatch,
};
use queued::metrics::{bump, Metrics};
use queued::slot::{
    decode_fields, encode_fields, encode_new_slot, rewrite_polled_slot, slot_hash_matches, slot_offset,
    SlotFields, SlotState, MESSAGE_SLOT_CONTENT_LEN_MAX, SLOT_FIXED_FIELDS_LEN, SLOT_LEN,
    SLOT_OFFSETOF_CONTENTS, SLOT_OFFSETOF_CREATED_TS, SLOT_OFFSETOF_HASH,
    SLOT_OFFSETOF_HASH_INCLUDES_CONTENTS, SLOT_OFFSETOF_LEN, SLOT_OFFSETOF_POLL_COUNT,
    SLOT_OFFSETOF_POLL_TAG, SLOT_OFFSETOF_STATE, SLOT_OFFSETOF_VISIBLE_TS,
};

#[test]
fn big_endian_encodings() {
    let mut out = Vec::new();
    push_u16_be(&mut out, 0x0102);
    push_u32_be(&mut out, 0x0a0b0c0d);
    push_u64_be(&mut out, 0x1122334455667788);
    push_i64_be(&mut out, -2);
    assert_eq!(
        out,
        vec![
            1, 2, 0x0a, 0x0b, 0x0c, 0x0d, 0x11, 0x22, 0x33, 0x44, 0x55, 0x66, 0x77, 0x88, 0xff,
            0xff, 0xff, 0xff, 0xff, 0xff, 0xff, 0xfe
        ]
    );
    assert_eq!(read_u16_be(&out, 0), 0x0102);
    assert_eq!(read_u32_be(&out, 2), 0x0a0b0c0d);
    assert_eq!(read_u64_be(&out, 6), 0x1122334455667788);
    assert_eq!(read_i64_be(&out, 14), -2);
}

#[test]
fn big_endian_agrees_with_std() {
    for v in [0i64, 1, -1, i64::MIN, i64::MAX, 1_700_000_000, -1_700_000_000] {
        let mut out = Vec::new();
        push_i64_be(&mut out, v);
        assert_eq!(out, v.to_be_bytes().to_vec());
        assert_eq!(read_i64_be(&out, 0), v);
        assert_eq!(to_twos_complement(v), v as u64);
        assert_eq!(signed_from_twos_complement(v as u64), v);
    }
    for v in [0u64, 1, u64::MAX, 0x8000_0000_0000_0000] {
        let mut out = Vec::new();
        push_u64_be(&mut out, v);
        assert_eq!(out, v.to_be_bytes().to_vec());
        assert_eq!(read_u64_be(&out, 0), v);
    }
    for v in [0u32, 1, u32::MAX, 0xdead_beef] {
        let mut out = Vec::new();
        push_u32_be(&mut out, v);
        assert_eq!(out, v.to_be_bytes().to_vec());
        assert_eq!(read_u32_be(&out, 0), v);
    }
    for v in [0u16, 1, u16::MAX, 938] {
        let mut out = Vec::new();
        push_u16_be(&mut out, v);
        assert_eq!(out, v.to_be_bytes().to_vec());
        assert_eq!(read_u16_be(&out, 0), v);
    }
}

#[test]
fn slot_constants_describe_the_layout() {
    assert_eq!(SLOT_LEN, 1024);
    assert_eq!(SLOT_OFFSETOF_HASH, 0);
    assert_eq!(SLOT_OFFSETOF_HASH_INCLUDES_CONTENTS, 32);
    assert_eq!(SLOT_OFFSETOF_STATE, 33);
    assert_eq!(SLOT_OFFSETOF_POLL_TAG, 34);
    assert_eq!(SLOT_OFFSETOF_CREATED_TS, 64);
    assert_eq!(SLOT_OFFSETOF_VISIBLE_TS, 72);
    assert_eq!(SLOT_OFFSETOF_POLL_COUNT, 80);
    assert_eq!(SLOT_OFFSETOF_LEN, 84);
    assert_eq!(SLOT_OFFSETOF_CONTENTS, 86);
    assert_eq!(SLOT_FIXED_FIELDS_LEN, 86);
    assert_eq!(MESSAGE_SLOT_CONTENT_LEN_MAX, SLOT_LEN - 86);
    assert_eq!(SlotState::Vacant.to_byte(), 0);
    assert_eq!(SlotState::Available.to_byte(), 1);
    assert_eq!(SlotState::from_byte(0), Some(SlotState::Vacant));
    assert_eq!(SlotState::from_byte(1), Some(SlotState::Available));
    assert_eq!(SlotState::from_byte(2), None);
}

#[test]
fn slot_offsets() {
    assert_eq!(slot_offset(0), Some(0));
    assert_eq!(slot_offset(3), Some(3072));
    assert_eq!(slot_offset(u64::MAX / 1024), Some((u64::MAX / 1024) * 1024));
    assert_eq!(slot_offset(u64::MAX / 1024 + 1), None);
}

#[test]
fn new_slot_has_the_documented_bytes() {
    let slot = encode_new_slot("hello", 1_700_000_000, 1_700_000_060).unwrap();
    assert_eq!(slot.len(), 86 + 5);
    assert_eq!(&slot[0..32], blake3::hash(&slot[32..]).as_bytes());
    assert_eq!(slot[32], 1);
    assert_eq!(slot[33], 1);
    assert_eq!(&slot[34..64], &[0u8; 30]);
    assert_eq!(&slot[64..72], &1_700_000_000i64.to_be_bytes());
    assert_eq!(&slot[72..80], &1_700_000_060i64.to_be_bytes());
    assert_eq!(&slot[80..84], &[0u8; 4]);
    assert_eq!(&slot[84..86], &5u16.to_be_bytes());
    assert_eq!(&slot[86..], b"hello");
    assert!(slot_hash_matches(&slot));
}

#[test]
fn new_slot_refuses_long_contents() {
    let just_fits = "a".repeat(938);
    let too_long = "a".repeat(939);
    let slot = encode_new_slot(&just_fits, 0, 0).unwrap();
    assert_eq!(slot.len(), 1024);
    assert!(slot_hash_matches(&slot));
    assert!(encode_new_slot(&too_long, 0, 0).is_none());
    assert_eq!(encode_new_slot("", 0, 0).unwrap().len(), 86);
}

#[test]
fn contents_are_measured_in_bytes() {
    // 313 three-byte characters are 939 bytes.
    let wide = "\u{20ac}".repeat(313);
    assert!(encode_new_slot(&wide, 0, 0).is_none());
    let fits = "\u{20ac}".repeat(312);
    let slot = encode_new_slot(&fits, 0, 0).unwrap();
    assert_eq!(&slot[84..86], &936u16.to_be_bytes());
}

#[test]
fn hash_check_detects_damage() {
    let slot = encode_new_slot("payload", 5, 6).unwrap();
    assert!(slot_hash_matches(&slot));
    for at in [0usize, 31, 32, 33, 40, 64, 72, 80, 85, 86, 92] {
        let mut damaged = slot.clone();
        damaged[at] ^= 0x40;
        assert!(!slot_hash_matches(&damaged), "damage at {} went unseen", at);
    }
    assert!(!slot_hash_matches(&slot[..85]));
    assert!(!slot_hash_matches(&slot[..90]));
    assert!(!slot_hash_matches(&[]));
}

#[test]
fn hash_check_ignores_what_follows_the_contents() {
    let mut slot = encode_new_slot("payload", 5, 6).unwrap();
    slot.resize(1024, 0xaa);
    assert!(slot_hash_matches(&slot));
}

#[test]
fn polled_slot_is_rewritten_without_its_contents() {
    let mut slot = encode_new_slot("hello", 1000, 1000).unwrap();
    slot.resize(1024, 0);
    let mut token = [0u8; 30];
    for i in 0..30 {
        token[i] = 100 + i as u8;
    }
    let polled = rewrite_polled_slot(&slot, token, 1030).unwrap();
    assert_eq!(polled.contents, "hello");
    assert_eq!(polled.created_ts, 1000);
    assert_eq!(polled.poll_count, 1);
    assert_eq!(polled.poll_tag, token);
    let p = &polled.prefix;
    assert_eq!(p.len(), 86);
    assert_eq!(&p[0..32], blake3::hash(&p[32..86]).as_bytes());
    assert_eq!(p[32], 0);
    assert_eq!(p[33], 1);
    assert_eq!(&p[34..64], &token);
    assert_eq!(&p[64..72], &1000i64.to_be_bytes());
    assert_eq!(&p[72..80], &1030i64.to_be_bytes());
    assert_eq!(&p[80..84], &1u32.to_be_bytes());
    assert_eq!(&p[84..86], &5u16.to_be_bytes());

    // Written over the start of the slot, the result is a valid slot again.
    slot[..86].copy_from_slice(p);
    assert!(slot_hash_matches(&slot));
    let again = rewrite_polled_slot(&slot, [9u8; 30], 2000).unwrap();
    assert_eq!(again.contents, "hello");
    assert_eq!(again.created_ts, 1000);
    assert_eq!(again.poll_count, 2);
}

#[test]
fn polled_slot_must_be_complete_and_utf8() {
    let slot = encode_new_slot("hello", 1, 2).unwrap();
    assert!(rewrite_polled_slot(&slot[..85], [0u8; 30], 3).is_none());
    assert!(rewrite_polled_slot(&slot[..90], [0u8; 30], 3).is_none());
    assert!(rewrite_polled_slot(&slot, [0u8; 30], 3).is_some());
    let mut bad = slot.clone();
    bad[86] = 0xff;
    assert!(rewrite_polled_slot(&bad, [0u8; 30], 3).is_none());
}

#[test]
fn poll_count_wraps() {
    let mut slot = encode_new_slot("x", 1, 2).unwrap();
    slot[80..84].copy_from_slice(&u32::MAX.to_be_bytes());
    let polled = rewrite_polled_slot(&slot, [0u8; 30], 3).unwrap();
    assert_eq!(polled.poll_count, 0);
    slot[80..84].copy_from_slice(&41u32.to_be_bytes());
    assert_eq!(rewrite_polled_slot(&slot, [0u8; 30], 3).unwrap().poll_count, 42);
}

#[test]
fn fields_encode_in_order() {
    let fields = SlotFields {
        hash_includes_contents: false,
        state: SlotState::Vacant,
        poll_tag: [3u8; 30],
        created_ts: -1,
        visible_ts: 2,
        poll_count: 0x01020304,
        content_len: 0x0506,
    };
    let bytes = encode_fields(&fields);
    let mut expected = vec![0u8, 0u8];
    expected.extend_from_slice(&[3u8; 30]);
    expected.extend_from_slice(&[0xff; 8]);
    expected.extend_from_slice(&[0, 0, 0, 0, 0, 0, 0, 2]);
    expected.extend_from_slice(&[1, 2, 3, 4, 5, 6]);
    assert_eq!(bytes, expected);
}

#[test]
fn keys_are_prefix_then_big_endian_id() {
    assert_eq!(
        rocksdb_key(RocksDbKeyPrefix::MessageData, 0x0102030405060708),
        vec![1, 1, 2, 3, 4, 5, 6, 7, 8]
    );
    assert_eq!(
        rocksdb_key(RocksDbKeyPrefix::MessagePollTag, 0),
        vec![2, 0, 0, 0, 0, 0, 0, 0, 0]
    );
    assert_eq!(
        rocksdb_key(RocksDbKeyPrefix::MessageVisibleTimestampSec, u64::MAX),
        vec![3, 255, 255, 255, 255, 255, 255, 255, 255]
    );
}

fn insert_of(op: &BatchOp) -> (Vec<u8>, Vec<u8>) {
    match op {
        BatchOp::Insert { key, value } => (key.clone(), value.clone()),
        BatchOp::Remove { .. } => panic!("expected an insert"),
    }
}

fn remove_of(op: &BatchOp) -> Vec<u8> {
    match op {
        BatchOp::Remove { key } => key.clone(),
        BatchOp::Insert { .. } => panic!("expected a remove"),
    }
}

#[test]
fn visibility_update_values_are_little_endian() {
    let mut batch = WriteBatch::new();
    stage_visibility_update(&mut batch, 5, 0x01020304, 0x0a0b0c0d0e);
    assert_eq!(batch.ops.len(), 2);
    assert_eq!(
        insert_of(&batch.ops[0]),
        (vec![2, 0, 0, 0, 0, 0, 0, 0, 5], vec![4, 3, 2, 1])
    );
    assert_eq!(
        insert_of(&batch.ops[1]),
        (vec![3, 0, 0, 0, 0, 0, 0, 0, 5], vec![0x0e, 0x0d, 0x0c, 0x0b, 0x0a])
    );
}

#[test]
fn forty_bit_timestamps_keep_the_low_bytes() {
    let mut batch = WriteBatch::new();
    stage_visibility_update(&mut batch, 0, u32::MAX, -2);
    stage_visibility_update(&mut batch, 0, 0, 1_700_000_000);
    stage_visibility_update(&mut batch, 0, 0, 0x11_2233_4455_66);
    assert_eq!(insert_of(&batch.ops[0]).1, vec![255, 255, 255, 255]);
    assert_eq!(insert_of(&batch.ops[1]).1, vec![0xfe, 0xff, 0xff, 0xff, 0xff]);
    assert_eq!(insert_of(&batch.ops[3]).1, 1_700_000_000i64.to_le_bytes()[..5].to_vec());
    assert_eq!(insert_of(&batch.ops[5]).1, vec![0x66, 0x55, 0x44, 0x33, 0x22]);
}

#[test]
fn removal_and_creation_batches() {
    let mut batch = WriteBatch::new();
    stage_message_removal(&mut batch, 2);
    assert_eq!(batch.ops.len(), 3);
    assert_eq!(remove_of(&batch.ops[0]), vec![1, 0, 0, 0, 0, 0, 0, 0, 2]);
    assert_eq!(remove_of(&batch.ops[1]), vec![2, 0, 0, 0, 0, 0, 0, 0, 2]);
    assert_eq!(remove_of(&batch.ops[2]), vec![3, 0, 0, 0, 0, 0, 0, 0, 2]);

    let mut batch = WriteBatch::new();
    stage_message_creation(&mut batch, 1, "hi", 77);
    assert_eq!(batch.ops.len(), 3);
    assert_eq!(
        insert_of(&batch.ops[0]),
        (vec![1, 0, 0, 0, 0, 0, 0, 0, 1], b"hi".to_vec())
    );
    assert_eq!(
        insert_of(&batch.ops[1]),
        (vec![2, 0, 0, 0, 0, 0, 0, 0, 1], vec![0, 0, 0, 0])
    );
    assert_eq!(
        insert_of(&batch.ops[2]),
        (vec![3, 0, 0, 0, 0, 0, 0, 0, 1], vec![77, 0, 0, 0, 0])
    );
}

#[test]
fn ids_are_contiguous_and_never_repeat() {
    let mut g = IdGenerator::new();
    assert_eq!(g.generate(3), 0);
    assert_eq!(g.generate(0), 3);
    assert_eq!(g.generate(2), 3);
    assert_eq!(g.peek_next(), 5);
    assert_eq!(g.watermark(), 0);
}

#[test]
fn commits_may_arrive_out_of_order() {
    let mut g = IdGenerator::new();
    let a = g.generate(3);
    let b = g.generate(2);
    assert_eq!(g.commit(b, 2), Some(5));
    assert_eq!(g.commit(a, 3), Some(5));
    assert_eq!(g.watermark(), 5);
    assert_eq!(g.peek_next(), 5);
}

#[test]
fn commit_refuses_ids_never_handed_out() {
    let mut g = IdGenerator::new();
    let _ = g.generate(3);
    assert_eq!(g.commit(2, 2), None);
    assert_eq!(g.commit(u64::MAX, 2), None);
    assert_eq!(g.watermark(), 0);
    assert_eq!(g.commit(0, 3), Some(3));
}

#[test]
fn recovery_restarts_at_the_watermark() {
    let mut g = IdGenerator::new();
    let a = g.generate(4);
    let watermark = g.commit(a, 4).unwrap();
    let _lost = g.generate(10);
    let mut recovered = IdGenerator::recover(watermark);
    assert_eq!(recovered.peek_next(), 4);
    assert_eq!(recovered.watermark(), 4);
    let next = recovered.generate(1);
    assert!(next > a + 3);
    assert_eq!(next, 4);
}

#[test]
fn id_room() {
    let g = IdGenerator::recover(u64::MAX - 2);
    assert!(g.has_room(2));
    assert!(!g.has_room(3));
    let mut g = g;
    assert_eq!(g.generate(2), u64::MAX - 2);
    assert!(g.has_room(0));
    assert!(!g.has_room(1));
}

#[test]
fn counters_wrap() {
    let mut c = 0u64;
    bump(&mut c);
    assert_eq!(c, 1);
    let mut c = u64::MAX;
    bump(&mut c);
    assert_eq!(c, 0);
    let m = Metrics::new();
    assert_eq!(m.successful_push_counter, 0);
    assert_eq!(m.empty_poll_counter, 0);
    assert_eq!(m.missing_delete_counter, 0);
}

#[test]
fn stored_values_read_back() {
    assert_eq!(decode_poll_tag(&[4, 3, 2, 1]), Some(0x01020304));
    assert_eq!(decode_poll_tag(&[255, 255, 255, 255]), Some(u32::MAX));
    assert_eq!(decode_poll_tag(&[1, 2, 3]), None);
    assert_eq!(decode_poll_tag(&[1, 2, 3, 4, 5]), None);
    assert_eq!(decode_visible_ts(&[0x0e, 0x0d, 0x0c, 0x0b, 0x0a]), Some(0x0a0b0c0d0e));
    assert_eq!(decode_visible_ts(&[1, 0, 0, 0]), None);
    assert_eq!(decode_visible_ts(&[1, 0, 0, 0, 0, 0]), None);
    // A stored timestamp is read back without a sign.
    assert_eq!(decode_visible_ts(&[0xfe, 0xff, 0xff, 0xff, 0xff]), Some(0xff_ffff_fffe));

    let mut batch = WriteBatch::new();
    stage_visibility_update(&mut batch, 9, 123_456, 1_700_000_000);
    assert_eq!(decode_poll_tag(&insert_of(&batch.ops[0]).1), Some(123_456));
    assert_eq!(decode_visible_ts(&insert_of(&batch.ops[1]).1), Some(1_700_000_000));
}

#[test]
fn slot_fields_read_back() {
    let slot = encode_new_slot("hello", -7, 1_700_000_060).unwrap();
    let f = decode_fields(&slot).unwrap();
    assert!(f.hash_includes_contents);
    assert_eq!(f.state, SlotState::Available);
    assert_eq!(f.poll_tag, [0u8; 30]);
    assert_eq!(f.created_ts, -7);
    assert_eq!(f.visible_ts, 1_700_000_060);
    assert_eq!(f.poll_count, 0);
    assert_eq!(f.content_len, 5);

    let polled = rewrite_polled_slot(&slot, [0xabu8; 30], 99).unwrap();
    let mut written = slot.clone();
    written[..86].copy_from_slice(&polled.prefix);
    let f = decode_fields(&written).unwrap();
    assert!(!f.hash_includes_contents);
    assert_eq!(f.poll_tag, [0xabu8; 30]);
    assert_eq!(f.visible_ts, 99);
    assert_eq!(f.poll_count, 1);
    assert_eq!(f.created_ts, -7);

    assert!(decode_fields(&slot[..85]).is_none());
    assert!(decode_fields(&slot[..88]).is_none());
    let mut bad_state = slot.clone();
    bad_state[33] = 2;
    assert!(decode_fields(&bad_state).is_none());
    let mut vacant = slot.clone();
    vacant[33] = 0;
    assert_eq!(decode_fields(&vacant).unwrap().state, SlotState::Vacant);
}
