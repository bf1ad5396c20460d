//! The fixed-size slot layout.
//!
//! A slot is a block of `SLOT_LEN` bytes. In big-endian order it holds a
//! 32-byte hash, a flag that says whether the hash covers the contents, the
//! state, the 30-byte poll tag, the creation and visibility timestamps in
//! seconds, the poll count, the length of the contents, and the contents.
//!
//! The hash covers everything after itself up to the end of the fixed
//! fields, and the contents too when the flag is set. A delivery rewrites
//! only the fixed fields, with the flag cleared: the contents are already
//! durable and are not written again.

use crate::bytes::{
    i64_be, i64_from_be, push_i64_be, push_u16_be, push_u32_be, read_i64_be, read_u16_be,
    read_u32_be, u16_be, u16_from_be, u32_be, u32_from_be,
};
use crate::digest::{blake3_digest, blake3_hash};
use crate::tag::PollTag;
use vstd::prelude::*;
use vstd::string::StringSliceAdditionalSpecFns;
use vstd::utf8::*;

verus! {

pub const SLOT_LEN: u64 = 1024;

pub const SLOT_OFFSETOF_HASH: usize = 0;

pub const SLOT_OFFSETOF_HASH_INCLUDES_CONTENTS: usize = 32;

pub const SLOT_OFFSETOF_STATE: usize = 33;

pub const SLOT_OFFSETOF_POLL_TAG: usize = 34;

pub const SLOT_OFFSETOF_CREATED_TS: usize = 64;

pub const SLOT_OFFSETOF_VISIBLE_TS: usize = 72;

pub const SLOT_OFFSETOF_POLL_COUNT: usize = 80;

pub const SLOT_OFFSETOF_LEN: usize = 84;

pub const SLOT_OFFSETOF_CONTENTS: usize = 86;

/// Length of everything in a slot but the contents.
pub const SLOT_FIXED_FIELDS_LEN: usize = 86;

/// The longest contents a slot can hold.
pub const MESSAGE_SLOT_CONTENT_LEN_MAX: u64 = 938;

/// Whether a slot holds a message.
#[derive(Clone, Copy, Debug, PartialEq, Eq, Structural)]
pub enum SlotState {
    Vacant,
    Available,
}

impl SlotState {
    /// The byte that stands for the state on disk.
    pub open spec fn byte(self) -> u8 {
        match self {
            SlotState::Vacant => 0,
            SlotState::Available => 1,
        }
    }

    /// The byte that stands for the state on disk.
    pub fn to_byte(&self) -> (b: u8)
        ensures
            b == self.byte(),
    {
        match self {
            SlotState::Vacant => 0,
            SlotState::Available => 1,
        }
    }

    /// The state that `b` stands for, if any.
    pub fn from_byte(b: u8) -> (state: Option<SlotState>)
        ensures
            state is Some == (b <= 1),
            state matches Some(s) ==> s.byte() == b,
    {
        if b == 0 {
            Some(SlotState::Vacant)
        } else if b == 1 {
            Some(SlotState::Available)
        } else {
            None
        }
    }
}

/// The fixed fields of a slot that follow the hash.
pub struct SlotFields {
    pub hash_includes_contents: bool,
    pub state: SlotState,
    pub poll_tag: [u8; 30],
    pub created_ts: i64,
    pub visible_ts: i64,
    pub poll_count: u32,
    pub content_len: u16,
}

/// The fixed fields as mathematical values.
pub ghost struct FieldsModel {
    pub hash_includes_contents: bool,
    pub state: SlotState,
    pub poll_tag: Seq<u8>,
    pub created_ts: i64,
    pub visible_ts: i64,
    pub poll_count: u32,
    pub content_len: u16,
}

impl View for SlotFields {
    type V = FieldsModel;

    open spec fn view(&self) -> FieldsModel {
        FieldsModel {
            hash_includes_contents: self.hash_includes_contents,
            state: self.state,
            poll_tag: self.poll_tag@,
            created_ts: self.created_ts,
            visible_ts: self.visible_ts,
            poll_count: self.poll_count,
            content_len: self.content_len,
        }
    }
}

/// The byte that stands for the hash-scope flag on disk.
pub open spec fn flag_byte(hash_includes_contents: bool) -> u8 {
    if hash_includes_contents {
        1
    } else {
        0
    }
}

/// The bytes of the fixed fields, as they lie in a slot after the hash.
pub open spec fn fields_bytes(f: FieldsModel) -> Seq<u8> {
    seq![flag_byte(f.hash_includes_contents), f.state.byte()] + f.poll_tag + i64_be(f.created_ts)
        + i64_be(f.visible_ts) + u32_be(f.poll_count) + u16_be(f.content_len)
}

/// What the hash of a slot with fields `f` and contents `contents` covers.
pub open spec fn hash_scope(f: FieldsModel, contents: Seq<u8>) -> Seq<u8> {
    if f.hash_includes_contents {
        fields_bytes(f) + contents
    } else {
        fields_bytes(f)
    }
}

/// The fixed part of a slot with fields `f` over contents `contents`: the
/// hash, then the fields.
pub open spec fn slot_prefix(f: FieldsModel, contents: Seq<u8>) -> Seq<u8> {
    blake3_digest(hash_scope(f, contents)) + fields_bytes(f)
}

/// The bytes of a slot with fields `f` and contents `contents`.
pub open spec fn slot_image(f: FieldsModel, contents: Seq<u8>) -> Seq<u8> {
    slot_prefix(f, contents) + contents
}

/// The fields of a message that was just pushed.
pub open spec fn fresh_fields(content_len: u16, created_ts: i64, visible_ts: i64) -> FieldsModel {
    FieldsModel {
        hash_includes_contents: true,
        state: SlotState::Available,
        poll_tag: Seq::new(30, |i: int| 0u8),
        created_ts,
        visible_ts,
        poll_count: 0,
        content_len,
    }
}

/// The stored hash of a slot.
pub open spec fn stored_hash(slot: Seq<u8>) -> Seq<u8> {
    slot.subrange(0, 32)
}

/// The stored creation timestamp of a slot.
pub open spec fn stored_created_ts(slot: Seq<u8>) -> i64 {
    i64_from_be(slot.subrange(64, 72))
}

/// The stored visibility timestamp of a slot.
pub open spec fn stored_visible_ts(slot: Seq<u8>) -> i64 {
    i64_from_be(slot.subrange(72, 80))
}

/// The stored poll count of a slot.
pub open spec fn stored_poll_count(slot: Seq<u8>) -> u32 {
    u32_from_be(slot.subrange(80, 84))
}

/// The stored poll tag of a slot.
pub open spec fn stored_poll_tag(slot: Seq<u8>) -> Seq<u8> {
    slot.subrange(34, 64)
}

/// The stored length of the contents of a slot.
pub open spec fn stored_content_len(slot: Seq<u8>) -> u16 {
    u16_from_be(slot.subrange(84, 86))
}

/// The stored contents of a slot.
pub open spec fn stored_contents(slot: Seq<u8>) -> Seq<u8> {
    slot.subrange(86, 86 + stored_content_len(slot))
}

/// The slot is long enough to hold its fixed fields and the contents whose
/// length it records.
pub open spec fn slot_complete(slot: Seq<u8>) -> bool {
    slot.len() >= 86 && slot.len() >= 86 + stored_content_len(slot)
}

/// What the hash of a stored slot covers, by its own flag.
pub open spec fn stored_hash_scope(slot: Seq<u8>) -> Seq<u8> {
    if slot[32] != 0 {
        slot.subrange(32, 86 + stored_content_len(slot))
    } else {
        slot.subrange(32, 86)
    }
}

/// The slot is complete and its stored hash is the digest of what its flag
/// says the hash covers.
pub open spec fn slot_hash_valid(slot: Seq<u8>) -> bool {
    slot_complete(slot) && stored_hash(slot) == blake3_digest(stored_hash_scope(slot))
}

/// Calls `String::from_utf8` and drops the error.
///
/// Trusted: the result is a string exactly when `bytes` are valid UTF-8, and
/// the string then holds the characters that the bytes encode.
#[verifier::external_body]
pub(crate) fn utf8_to_string(bytes: Vec<u8>) -> (text: Option<String>)
    ensures
        text is Some == valid_utf8(bytes@),
        text matches Some(s) ==> s@ == decode_utf8(bytes@),
{
    String::from_utf8(bytes).ok()
}

/// Appends `src` to `out`.
pub fn append_bytes(out: &mut Vec<u8>, src: &[u8])
    ensures
        final(out)@ == old(out)@ + src@,
{
    let mut i: usize = 0;
    while i < src.len()
        invariant
            0 <= i <= src@.len(),
            out@ == old(out)@ + src@.subrange(0, i as int),
        decreases src@.len() - i,
    {
        out.push(src[i]);
        assert(out@ =~= old(out)@ + src@.subrange(0, i + 1));
        i += 1;
    }
    assert(src@.subrange(0, i as int) =~= src@);
}

/// The byte offset of slot `id` on the device, where it fits in 64 bits.
pub fn slot_offset(id: u64) -> (offset: Option<u64>)
    ensures
        offset is Some == (id * SLOT_LEN <= u64::MAX),
        offset matches Some(o) ==> o == id * SLOT_LEN,
{
    id.checked_mul(SLOT_LEN)
}

/// Encodes the fixed fields as they lie in a slot after the hash.
pub fn encode_fields(f: &SlotFields) -> (out: Vec<u8>)
    ensures
        out@ == fields_bytes(f@),
        out@.len() == 54,
{
    let mut out: Vec<u8> = Vec::new();
    out.push(if f.hash_includes_contents { 1 } else { 0 });
    out.push(f.state.to_byte());
    append_bytes(&mut out, f.poll_tag.as_slice());
    push_i64_be(&mut out, f.created_ts);
    push_i64_be(&mut out, f.visible_ts);
    push_u32_be(&mut out, f.poll_count);
    push_u16_be(&mut out, f.content_len);
    assert(out@ =~= fields_bytes(f@));
    out
}

/// The stored state byte of a slot.
pub open spec fn stored_state_byte(slot: Seq<u8>) -> u8 {
    slot[33]
}

/// Reads the fixed fields of a stored slot. `None` if and only if the slot
/// is too short for its fixed fields or for the contents whose length it
/// records, or its state byte stands for no state.
pub fn decode_fields(slot: &[u8]) -> (fields: Option<SlotFields>)
    ensures
        fields is Some == (slot_complete(slot@) && stored_state_byte(slot@) <= 1),
        fields matches Some(f) ==> {
            &&& f.hash_includes_contents == (slot@[32] != 0)
            &&& f.state.byte() == stored_state_byte(slot@)
            &&& f.poll_tag@ == stored_poll_tag(slot@)
            &&& f.created_ts == stored_created_ts(slot@)
            &&& f.visible_ts == stored_visible_ts(slot@)
            &&& f.poll_count == stored_poll_count(slot@)
            &&& f.content_len == stored_content_len(slot@)
        },
{
    if slot.len() < 86 {
        return None;
    }
    let content_len = read_u16_be(slot, 84);
    if slot.len() - 86 < content_len as usize {
        return None;
    }
    let state = match SlotState::from_byte(slot[33]) {
        Some(state) => state,
        None => {
            return None;
        },
    };
    let mut poll_tag = [0u8; 30];
    let mut i: usize = 0;
    while i < 30
        invariant
            0 <= i <= 30,
            slot@.len() >= 86,
            forall|j: int| 0 <= j < i ==> poll_tag@[j] == slot@[34 + j],
        decreases 30 - i,
    {
        poll_tag[i] = slot[34 + i];
        i += 1;
    }
    assert(poll_tag@ =~= stored_poll_tag(slot@));
    Some(
        SlotFields {
            hash_includes_contents: slot[32] != 0,
            state,
            poll_tag,
            created_ts: read_i64_be(slot, 64),
            visible_ts: read_i64_be(slot, 72),
            poll_count: read_u32_be(slot, 80),
            content_len,
        },
    )
}

/// The fields a slot carries once its message has been delivered: the
/// stored creation time and length, one more poll, the new tag and
/// visibility time, and a hash that no longer covers the contents.
pub open spec fn polled_fields(slot: Seq<u8>, token: Seq<u8>, visible_ts: i64) -> FieldsModel {
    FieldsModel {
        hash_includes_contents: false,
        state: SlotState::Available,
        poll_tag: token,
        created_ts: stored_created_ts(slot),
        visible_ts,
        poll_count: next_poll_count(stored_poll_count(slot)),
        content_len: stored_content_len(slot),
    }
}

/// The poll count after one more delivery. The count wraps at 2^32.
pub open spec fn next_poll_count(count: u32) -> u32 {
    if count == u32::MAX {
        0
    } else {
        (count + 1) as u32
    }
}

/// The slot as it lies on the device once `prefix` has been written over
/// its start.
pub open spec fn overlay(slot: Seq<u8>, prefix: Seq<u8>) -> Seq<u8> {
    prefix + slot.subrange(prefix.len() as int, slot.len() as int)
}

/// The bytes of a new slot for `contents`: hash over fields and contents,
/// state Available, a zero poll tag and no delivery yet. `None` if and only
/// if the contents are longer than a slot can hold.
pub fn encode_new_slot(contents: &str, created_ts: i64, visible_ts: i64) -> (slot: Option<Vec<u8>>)
    ensures
        slot is Some == (contents.spec_bytes().len() <= MESSAGE_SLOT_CONTENT_LEN_MAX),
        slot matches Some(bytes) ==> {
            &&& bytes@ == slot_image(
                fresh_fields(contents.spec_bytes().len() as u16, created_ts, visible_ts),
                contents.spec_bytes(),
            )
            &&& bytes@.len() == 86 + contents.spec_bytes().len()
            &&& slot_hash_valid(bytes@)
            &&& stored_contents(bytes@) == contents.spec_bytes()
            &&& stored_created_ts(bytes@) == created_ts
            &&& stored_visible_ts(bytes@) == visible_ts
            &&& stored_poll_count(bytes@) == 0
        },
{
    let raw = contents.as_bytes();
    if raw.len() > 938 {
        return None;
    }
    let fields = SlotFields {
        hash_includes_contents: true,
        state: SlotState::Available,
        poll_tag: [0u8; 30],
        created_ts,
        visible_ts,
        poll_count: 0,
        content_len: raw.len() as u16,
    };
    assert(fields@.poll_tag =~= Seq::new(30, |i: int| 0u8));
    let mut body = encode_fields(&fields);
    append_bytes(&mut body, raw);
    let digest = blake3_hash(body.as_slice());
    let mut out: Vec<u8> = Vec::new();
    append_bytes(&mut out, digest.as_slice());
    append_bytes(&mut out, body.as_slice());
    proof {
        let f = fresh_fields(raw@.len() as u16, created_ts, visible_ts);
        assert(fields@ == f);
        assert(out@ =~= slot_image(f, raw@));
        lemma_image_hash_valid(f, raw@, Seq::empty());
        assert(out@ =~= slot_image(f, raw@) + Seq::<u8>::empty());
    }
    Some(out)
}

/// A slot image, with whatever follows it on the device, carries a valid
/// hash and gives back its fields and contents, provided that the digest
/// has its 32 bytes and the fields record the length of the contents.
proof fn lemma_image_hash_valid(f: FieldsModel, contents: Seq<u8>, rest: Seq<u8>)
    requires
        blake3_digest(hash_scope(f, contents)).len() == 32,
        f.poll_tag.len() == 30,
        f.content_len == contents.len(),
    ensures
        slot_hash_valid(slot_image(f, contents) + rest),
        stored_contents(slot_image(f, contents) + rest) == contents,
        stored_created_ts(slot_image(f, contents) + rest) == f.created_ts,
        stored_visible_ts(slot_image(f, contents) + rest) == f.visible_ts,
        stored_poll_count(slot_image(f, contents) + rest) == f.poll_count,
        stored_poll_tag(slot_image(f, contents) + rest) == f.poll_tag,
        stored_content_len(slot_image(f, contents) + rest) == f.content_len,
{
    let slot = slot_image(f, contents) + rest;
    let fb = fields_bytes(f);
    crate::bytes::lemma_be_round_trip(f.content_len, f.poll_count, 0, f.created_ts);
    crate::bytes::lemma_be_round_trip(f.content_len, f.poll_count, 0, f.visible_ts);
    assert(fb.len() == 54);
    assert(slot.subrange(32, 86) =~= fb);
    assert(slot.subrange(84, 86) =~= u16_be(f.content_len));
    assert(slot.subrange(80, 84) =~= u32_be(f.poll_count));
    assert(slot.subrange(72, 80) =~= i64_be(f.visible_ts));
    assert(slot.subrange(64, 72) =~= i64_be(f.created_ts));
    assert(slot.subrange(34, 64) =~= f.poll_tag);
    assert(slot.subrange(0, 32) =~= blake3_digest(hash_scope(f, contents)));
    assert(slot.subrange(86, 86 + contents.len() as int) =~= contents);
    assert(slot[32] == flag_byte(f.hash_includes_contents));
    if f.hash_includes_contents {
        assert(slot.subrange(32, 86 + contents.len() as int) =~= fb + contents);
    }
}

/// What a delivery reads from a slot and writes back to it.
pub struct PolledSlot {
    /// The new fixed part of the slot, hash first: what is written over the
    /// start of the slot.
    pub prefix: Vec<u8>,
    /// The contents of the message.
    pub contents: String,
    /// When the message was pushed, in seconds since the epoch.
    pub created_ts: i64,
    /// How often the message has been delivered, this delivery included.
    pub poll_count: u32,
    /// The tag of this delivery.
    pub poll_tag: [u8; 30],
}

/// Reads the message out of `slot` and builds the fixed part that records
/// its delivery under `token`, visible again at `visible_ts`.
///
/// `None` if and only if the slot is too short for its fixed fields or for
/// the contents whose length it records, or the contents are not UTF-8.
pub fn rewrite_polled_slot(slot: &[u8], token: [u8; 30], visible_ts: i64) -> (polled: Option<
    PolledSlot,
>)
    ensures
        polled is Some == (slot_complete(slot@) && valid_utf8(stored_contents(slot@))),
        polled matches Some(p) ==> {
            &&& p.prefix@ == slot_prefix(
                polled_fields(slot@, token@, visible_ts),
                stored_contents(slot@),
            )
            &&& p.prefix@.len() == 86
            &&& p.contents@ == decode_utf8(stored_contents(slot@))
            &&& p.created_ts == stored_created_ts(slot@)
            &&& p.poll_count == next_poll_count(stored_poll_count(slot@))
            &&& p.poll_tag == token
            &&& slot_hash_valid(overlay(slot@, p.prefix@))
            &&& stored_contents(overlay(slot@, p.prefix@)) == stored_contents(slot@)
            &&& stored_poll_tag(overlay(slot@, p.prefix@)) == token@
            &&& stored_visible_ts(overlay(slot@, p.prefix@)) == visible_ts
        },
{
    if slot.len() < 86 {
        return None;
    }
    let content_len = read_u16_be(slot, 84);
    if slot.len() - 86 < content_len as usize {
        return None;
    }
    let raw = vstd::slice::slice_to_vec(
        vstd::slice::slice_subrange(slot, 86, 86 + content_len as usize),
    );
    let ghost raw_bytes = raw@;
    let contents = match utf8_to_string(raw) {
        Some(text) => text,
        None => {
            return None;
        },
    };
    let created_ts = read_i64_be(slot, 64);
    let stored_count = read_u32_be(slot, 80);
    let poll_count = if stored_count == u32::MAX {
        0
    } else {
        stored_count + 1
    };
    let fields = SlotFields {
        hash_includes_contents: false,
        state: SlotState::Available,
        poll_tag: token,
        created_ts,
        visible_ts,
        poll_count,
        content_len,
    };
    let body = encode_fields(&fields);
    let digest = blake3_hash(body.as_slice());
    let mut prefix: Vec<u8> = Vec::new();
    append_bytes(&mut prefix, digest.as_slice());
    append_bytes(&mut prefix, body.as_slice());
    proof {
        let f = polled_fields(slot@, token@, visible_ts);
        let kept = stored_contents(slot@);
        assert(fields@ == f);
        assert(prefix@ =~= slot_prefix(f, kept));
        let rest = slot@.subrange(86 + kept.len() as int, slot@.len() as int);
        assert(overlay(slot@, prefix@) =~= slot_image(f, kept) + rest);
        lemma_image_hash_valid(f, kept, rest);
    }
    Some(PolledSlot { prefix, contents, created_ts, poll_count, poll_tag: token })
}

/// Whether `slot` is complete and its stored hash is the digest of what its
/// flag says the hash covers.
pub fn slot_hash_matches(slot: &[u8]) -> (ok: bool)
    ensures
        ok == slot_hash_valid(slot@),
{
    if slot.len() < 86 {
        return false;
    }
    let content_len = read_u16_be(slot, 84);
    if slot.len() - 86 < content_len as usize {
        return false;
    }
    let end: usize = if slot[32] != 0 {
        86 + content_len as usize
    } else {
        86
    };
    let digest = blake3_hash(vstd::slice::slice_subrange(slot, 32, end));
    let mut i: usize = 0;
    while i < 32
        invariant
            0 <= i <= 32,
            slot_complete(slot@),
            digest@ == blake3_digest(stored_hash_scope(slot@)),
            forall|j: int| 0 <= j < i ==> slot@[j] == digest@[j],
        decreases 32 - i,
    {
        if slot[i] != digest[i] {
            assert(stored_hash(slot@)[i as int] != digest@[i as int]);
            return false;
        }
        i += 1;
    }
    assert(stored_hash(slot@) =~= digest@);
    true
}

/// The fields a slot carries once its message has been deleted: the state
/// is Vacant and the hash no longer covers the contents; the other fields
/// stay as they are stored.
pub open spec fn vacated_fields(slot: Seq<u8>) -> FieldsModel {
    FieldsModel {
        hash_includes_contents: false,
        state: SlotState::Vacant,
        poll_tag: stored_poll_tag(slot),
        created_ts: stored_created_ts(slot),
        visible_ts: stored_visible_ts(slot),
        poll_count: stored_poll_count(slot),
        content_len: stored_content_len(slot),
    }
}

/// Builds the fixed part that marks `slot` vacant: what is written over the
/// start of the slot when its message is deleted. Written there, it leaves
/// a slot with a valid hash that a restart does not put back into the
/// index.
///
/// `None` if and only if the slot is too short for its fixed fields or for
/// the contents whose length it records.
pub fn vacate_slot(slot: &[u8]) -> (prefix: Option<Vec<u8>>)
    ensures
        prefix is Some == slot_complete(slot@),
        prefix matches Some(p) ==> {
            &&& p@ == slot_prefix(vacated_fields(slot@), stored_contents(slot@))
            &&& p@.len() == 86
            &&& slot_hash_valid(overlay(slot@, p@))
            &&& stored_state_byte(overlay(slot@, p@)) == SlotState::Vacant.byte()
        },
{
    if slot.len() < 86 {
        return None;
    }
    let content_len = read_u16_be(slot, 84);
    if slot.len() - 86 < content_len as usize {
        return None;
    }
    let mut poll_tag = [0u8; 30];
    let mut i: usize = 0;
    while i < 30
        invariant
            0 <= i <= 30,
            slot@.len() >= 86,
            forall|j: int| 0 <= j < i ==> poll_tag@[j] == slot@[34 + j],
        decreases 30 - i,
    {
        poll_tag[i] = slot[34 + i];
        i += 1;
    }
    assert(poll_tag@ =~= stored_poll_tag(slot@));
    let fields = SlotFields {
        hash_includes_contents: false,
        state: SlotState::Vacant,
        poll_tag,
        created_ts: read_i64_be(slot, 64),
        visible_ts: read_i64_be(slot, 72),
        poll_count: read_u32_be(slot, 80),
        content_len,
    };
    let body = encode_fields(&fields);
    let digest = blake3_hash(body.as_slice());
    let mut prefix: Vec<u8> = Vec::new();
    append_bytes(&mut prefix, digest.as_slice());
    append_bytes(&mut prefix, body.as_slice());
    proof {
        let f = vacated_fields(slot@);
        let kept = stored_contents(slot@);
        assert(fields@ == f);
        assert(prefix@ =~= slot_prefix(f, kept));
        let rest = slot@.subrange(86 + kept.len() as int, slot@.len() as int);
        assert(overlay(slot@, prefix@) =~= slot_image(f, kept) + rest);
        lemma_image_hash_valid(f, kept, rest);
        assert(overlay(slot@, prefix@)[33] == f.state.byte());
    }
    Some(prefix)
}

/// What the index holds for a stored slot after a restart: its visibility
/// time and its poll tag. `None` if and only if the slot's hash is not
/// valid or its state is not Available.
pub fn recover_slot(slot: &[u8]) -> (entry: Option<(i64, PollTag)>)
    ensures
        entry is Some == (slot_hash_valid(slot@) && stored_state_byte(slot@)
            == SlotState::Available.byte()),
        entry matches Some((visible_ts, poll_tag)) ==> {
            &&& visible_ts == stored_visible_ts(slot@)
            &&& poll_tag matches PollTag::Token(token)
            &&& token@ == stored_poll_tag(slot@)
        },
{
    if !slot_hash_matches(slot) {
        return None;
    }
    match decode_fields(slot) {
        Some(fields) => {
            match fields.state {
                SlotState::Available => Some((fields.visible_ts, PollTag::Token(fields.poll_tag))),
                SlotState::Vacant => None,
            }
        },
        None => None,
    }
}

} // verus!
