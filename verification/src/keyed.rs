//! The keyed metadata layout.
//!
//! Each message owns three keys in a sorted-key store: its contents, its
//! poll tag and its visibility timestamp. A key is a one-byte prefix
//! followed by the id in big-endian; values are little-endian integers.

use crate::bytes::{push_u64_be, twos_complement, u64_be};
use off64::int::Off64ReadInt;
use vstd::prelude::*;
use vstd::string::StringSliceAdditionalSpecFns;

verus! {

/// Which of a message's keys a key is.
#[derive(Clone, Copy, Debug, PartialEq, Eq, Structural)]
pub enum RocksDbKeyPrefix {
    MessageData,
    MessagePollTag,
    MessageVisibleTimestampSec,
}

impl RocksDbKeyPrefix {
    /// The byte that starts every key of this kind.
    pub open spec fn byte(self) -> u8 {
        match self {
            RocksDbKeyPrefix::MessageData => 1,
            RocksDbKeyPrefix::MessagePollTag => 2,
            RocksDbKeyPrefix::MessageVisibleTimestampSec => 3,
        }
    }

    /// The byte that starts every key of this kind.
    pub fn to_byte(&self) -> (b: u8)
        ensures
            b == self.byte(),
    {
        match self {
            RocksDbKeyPrefix::MessageData => 1,
            RocksDbKeyPrefix::MessagePollTag => 2,
            RocksDbKeyPrefix::MessageVisibleTimestampSec => 3,
        }
    }
}

/// The key of kind `prefix` for message `id`: the prefix byte, then the id
/// in big-endian.
pub open spec fn key_bytes(prefix: RocksDbKeyPrefix, id: u64) -> Seq<u8> {
    seq![prefix.byte()] + u64_be(id)
}

/// The key of kind `prefix` for message `id`.
pub fn rocksdb_key(prefix: RocksDbKeyPrefix, id: u64) -> (key: Vec<u8>)
    ensures
        key@ == key_bytes(prefix, id),
        key@.len() == 9,
{
    let mut key: Vec<u8> = Vec::new();
    key.push(prefix.to_byte());
    push_u64_be(&mut key, id);
    assert(key@ =~= key_bytes(prefix, id));
    key
}

/// Distinct kinds or distinct ids never share a key.
pub proof fn lemma_keys_distinct(
    kind: RocksDbKeyPrefix,
    id: u64,
    other_kind: RocksDbKeyPrefix,
    other_id: u64,
)
    ensures
        key_bytes(kind, id) == key_bytes(other_kind, other_id) <==> (kind == other_kind && id
            == other_id),
{
    if key_bytes(kind, id) == key_bytes(other_kind, other_id) {
        assert(key_bytes(kind, id)[0] == kind.byte());
        assert(key_bytes(other_kind, other_id)[0] == other_kind.byte());
        assert(key_bytes(kind, id).subrange(1, 9) =~= u64_be(id));
        assert(key_bytes(other_kind, other_id).subrange(1, 9) =~= u64_be(other_id));
        crate::bytes::lemma_be_round_trip(0, 0, id, 0);
        crate::bytes::lemma_be_round_trip(0, 0, other_id, 0);
    }
}

/// Little-endian encoding of a 32-bit value.
pub open spec fn u32_le(v: u32) -> Seq<u8> {
    seq![
        (v % 0x100) as u8,
        ((v / 0x100) % 0x100) as u8,
        ((v / 0x1_0000) % 0x100) as u8,
        (v / 0x100_0000) as u8,
    ]
}

/// Little-endian encoding of the low forty bits of a signed value in two's
/// complement.
pub open spec fn i40_le(v: i64) -> Seq<u8> {
    seq![
        (twos_complement(v) % 0x100) as u8,
        ((twos_complement(v) / 0x100) % 0x100) as u8,
        ((twos_complement(v) / 0x1_0000) % 0x100) as u8,
        ((twos_complement(v) / 0x100_0000) % 0x100) as u8,
        ((twos_complement(v) / 0x1_0000_0000) % 0x100) as u8,
    ]
}

/// Calls `off64::int::create_u32_le`.
///
/// Trusted: the result is the four bytes of `v`, least significant first.
#[verifier::external_body]
pub(crate) fn create_u32_le(v: u32) -> (bytes: [u8; 4])
    ensures
        bytes@ == u32_le(v),
{
    off64::int::create_u32_le(v)
}

/// Calls `off64::int::create_i40_le`.
///
/// Trusted: the result is the five low bytes of the two's complement
/// pattern of `v`, least significant first. The three high bytes are
/// dropped, whatever they hold.
#[verifier::external_body]
pub(crate) fn create_i40_le(v: i64) -> (bytes: [u8; 5])
    ensures
        bytes@ == i40_le(v),
{
    off64::int::create_i40_le(v)
}

/// The value that four little-endian bytes encode.
pub open spec fn u32_from_le(s: Seq<u8>) -> u32
    recommends
        s.len() == 4,
{
    (s[0] as int + s[1] as int * 0x100 + s[2] as int * 0x1_0000 + s[3] as int * 0x100_0000) as u32
}

/// The value that five little-endian bytes encode, taken as unsigned: a
/// stored timestamp is read back without a sign.
pub open spec fn i40_from_le(s: Seq<u8>) -> i64
    recommends
        s.len() == 5,
{
    (s[0] as int + s[1] as int * 0x100 + s[2] as int * 0x1_0000 + s[3] as int * 0x100_0000
        + s[4] as int * 0x1_0000_0000) as i64
}

/// Calls `off64::int::Off64ReadInt::read_u32_le_at` on the slice, at
/// offset zero.
///
/// Trusted: the result is the value of the first four bytes, least
/// significant first. Shorter input is left out: the call would panic.
#[verifier::external_body]
pub(crate) fn read_u32_le(value: &[u8]) -> (v: u32)
    requires
        value@.len() >= 4,
    ensures
        v == u32_from_le(value@.subrange(0, 4)),
{
    value.read_u32_le_at(0)
}

/// Calls `off64::int::Off64ReadInt::read_i40_le_at` on the slice, at
/// offset zero.
///
/// Trusted: the result is the value of the first five bytes, least
/// significant first, with the three high bytes of the result zero, so it
/// is never negative. Shorter input is left out: the call would panic.
#[verifier::external_body]
pub(crate) fn read_i40_le(value: &[u8]) -> (v: i64)
    requires
        value@.len() >= 5,
    ensures
        v == i40_from_le(value@.subrange(0, 5)),
{
    value.read_i40_le_at(0)
}

/// The poll tag stored under a `MessagePollTag` key. `None` if and only if
/// the value is not four bytes long.
pub fn decode_poll_tag(value: &[u8]) -> (tag: Option<u32>)
    ensures
        tag is Some == (value@.len() == 4),
        tag matches Some(t) ==> t == u32_from_le(value@),
{
    if value.len() != 4 {
        return None;
    }
    assert(value@.subrange(0, 4) =~= value@);
    Some(read_u32_le(value))
}

/// The visibility time stored under a `MessageVisibleTimestampSec` key.
/// `None` if and only if the value is not five bytes long.
pub fn decode_visible_ts(value: &[u8]) -> (visible_ts: Option<i64>)
    ensures
        visible_ts is Some == (value@.len() == 5),
        visible_ts matches Some(t) ==> t == i40_from_le(value@),
{
    if value.len() != 5 {
        return None;
    }
    assert(value@.subrange(0, 5) =~= value@);
    Some(read_i40_le(value))
}

/// What the index holds for a stored message after a restart, from the
/// values under its poll tag key and its visibility time key. `None` if
/// and only if the first is not four bytes long or the second not five.
pub fn recover_keyed(poll_tag_value: &[u8], visible_ts_value: &[u8]) -> (entry: Option<
    (i64, crate::tag::PollTag),
>)
    ensures
        entry is Some == (poll_tag_value@.len() == 4 && visible_ts_value@.len() == 5),
        entry matches Some((visible_ts, poll_tag)) ==> {
            &&& visible_ts == i40_from_le(visible_ts_value@)
            &&& poll_tag == crate::tag::PollTag::Counter(u32_from_le(poll_tag_value@))
        },
{
    match (decode_poll_tag(poll_tag_value), decode_visible_ts(visible_ts_value)) {
        (Some(tag), Some(visible_ts)) => Some((visible_ts, crate::tag::PollTag::Counter(tag))),
        _ => None,
    }
}

/// A stored poll tag reads back as it was written, and so does a stored
/// visibility time that is not negative and fits in forty bits.
pub proof fn lemma_values_round_trip(poll_tag: u32, visible_ts: i64)
    ensures
        u32_le(poll_tag).len() == 4,
        i40_le(visible_ts).len() == 5,
        u32_from_le(u32_le(poll_tag)) == poll_tag,
        0 <= visible_ts < 0x100_0000_0000 ==> i40_from_le(i40_le(visible_ts)) == visible_ts,
{
    let s = u32_le(poll_tag);
    assert(s[0] == (poll_tag % 0x100) as u8);
    assert(s[1] == ((poll_tag / 0x100) % 0x100) as u8);
    assert(s[2] == ((poll_tag / 0x1_0000) % 0x100) as u8);
    assert(s[3] == (poll_tag / 0x100_0000) as u8);
    assert(poll_tag == (poll_tag % 0x100) + ((poll_tag / 0x100) % 0x100) * 0x100 + ((poll_tag
        / 0x1_0000) % 0x100) * 0x1_0000 + (poll_tag / 0x100_0000) * 0x100_0000) by (bit_vector);
    if 0 <= visible_ts < 0x100_0000_0000 {
        let u = twos_complement(visible_ts);
        let t = i40_le(visible_ts);
        assert(t[0] == (u % 0x100) as u8);
        assert(t[1] == ((u / 0x100) % 0x100) as u8);
        assert(t[2] == ((u / 0x1_0000) % 0x100) as u8);
        assert(t[3] == ((u / 0x100_0000) % 0x100) as u8);
        assert(t[4] == ((u / 0x1_0000_0000) % 0x100) as u8);
        assert(u < 0x100_0000_0000 ==> u == (u % 0x100) + ((u / 0x100) % 0x100) * 0x100 + ((u
            / 0x1_0000) % 0x100) * 0x1_0000 + ((u / 0x100_0000) % 0x100) * 0x100_0000 + ((u
            / 0x1_0000_0000) % 0x100) * 0x1_0000_0000) by (bit_vector);
    }
}

/// One staged change to the store.
pub enum BatchOp {
    Insert { key: Vec<u8>, value: Vec<u8> },
    Remove { key: Vec<u8> },
}

/// One staged change to the store, as mathematical values.
pub ghost enum Mutation {
    Insert { key: Seq<u8>, value: Seq<u8> },
    Remove { key: Seq<u8> },
}

impl View for BatchOp {
    type V = Mutation;

    open spec fn view(&self) -> Mutation {
        match *self {
            BatchOp::Insert { key, value } => Mutation::Insert { key: key@, value: value@ },
            BatchOp::Remove { key } => Mutation::Remove { key: key@ },
        }
    }
}

/// Changes to the store that are to be applied together, in order.
pub struct WriteBatch {
    pub ops: Vec<BatchOp>,
}

impl View for WriteBatch {
    type V = Seq<Mutation>;

    open spec fn view(&self) -> Seq<Mutation> {
        self.ops@.map_values(|op: BatchOp| op@)
    }
}

impl WriteBatch {
    /// An empty batch.
    pub fn new() -> (batch: WriteBatch)
        ensures
            batch@ == Seq::<Mutation>::empty(),
    {
        let batch = WriteBatch { ops: Vec::new() };
        assert(batch@ =~= Seq::<Mutation>::empty());
        batch
    }

    /// Stages the insertion of `value` under `key`.
    pub fn insert(&mut self, key: Vec<u8>, value: Vec<u8>)
        ensures
            final(self)@ == old(self)@.push(Mutation::Insert { key: key@, value: value@ }),
    {
        self.ops.push(BatchOp::Insert { key, value });
        assert(self@ =~= old(self)@.push(Mutation::Insert { key: key@, value: value@ }));
    }

    /// Stages the removal of `key`.
    pub fn remove(&mut self, key: Vec<u8>)
        ensures
            final(self)@ == old(self)@.push(Mutation::Remove { key: key@ }),
    {
        self.ops.push(BatchOp::Remove { key });
        assert(self@ =~= old(self)@.push(Mutation::Remove { key: key@ }));
    }
}

/// The changes that record a new poll tag and visibility time for `id`.
pub open spec fn visibility_update(id: u64, poll_tag: u32, visible_ts: i64) -> Seq<Mutation> {
    seq![
        Mutation::Insert {
            key: key_bytes(RocksDbKeyPrefix::MessagePollTag, id),
            value: u32_le(poll_tag),
        },
        Mutation::Insert {
            key: key_bytes(RocksDbKeyPrefix::MessageVisibleTimestampSec, id),
            value: i40_le(visible_ts),
        },
    ]
}

/// The changes that erase message `id`.
pub open spec fn message_removal(id: u64) -> Seq<Mutation> {
    seq![
        Mutation::Remove { key: key_bytes(RocksDbKeyPrefix::MessageData, id) },
        Mutation::Remove { key: key_bytes(RocksDbKeyPrefix::MessagePollTag, id) },
        Mutation::Remove { key: key_bytes(RocksDbKeyPrefix::MessageVisibleTimestampSec, id) },
    ]
}

/// The changes that store a new message: its contents, a zero poll tag and
/// its visibility time.
pub open spec fn message_creation(id: u64, contents: Seq<u8>, visible_ts: i64) -> Seq<Mutation> {
    seq![
        Mutation::Insert { key: key_bytes(RocksDbKeyPrefix::MessageData, id), value: contents },
    ] + visibility_update(id, 0, visible_ts)
}

/// What the store holds: for each key, its value.
pub type StoreModel = Map<Seq<u8>, Seq<u8>>;

/// The store after the changes of `batch` were applied to `store` in order.
pub open spec fn store_after(store: StoreModel, batch: Seq<Mutation>) -> StoreModel
    decreases batch.len(),
{
    if batch.len() == 0 {
        store
    } else {
        let before = store_after(store, batch.drop_last());
        match batch.last() {
            Mutation::Insert { key, value } => before.insert(key, value),
            Mutation::Remove { key } => before.remove(key),
        }
    }
}

/// `key` is one of the three keys of message `id`.
pub open spec fn is_key_of(key: Seq<u8>, id: u64) -> bool {
    ||| key == key_bytes(RocksDbKeyPrefix::MessageData, id)
    ||| key == key_bytes(RocksDbKeyPrefix::MessagePollTag, id)
    ||| key == key_bytes(RocksDbKeyPrefix::MessageVisibleTimestampSec, id)
}

proof fn lemma_store_after_two(store: StoreModel, first: Mutation, second: Mutation)
    ensures
        store_after(store, seq![first, second]) == store_after(
            store_after(store, seq![first]),
            seq![second],
        ),
        store_after(store, seq![first]) == match first {
            Mutation::Insert { key, value } => store.insert(key, value),
            Mutation::Remove { key } => store.remove(key),
        },
{
    let one = seq![first];
    let two = seq![first, second];
    assert(one.drop_last() =~= Seq::<Mutation>::empty());
    assert(two.drop_last() =~= one);
    assert(seq![second].drop_last() =~= Seq::<Mutation>::empty());
    assert(store_after(store, Seq::<Mutation>::empty()) == store);
    assert(store_after(store_after(store, one), Seq::<Mutation>::empty()) == store_after(
        store,
        one,
    ));
}

proof fn lemma_store_after_three(
    store: StoreModel,
    first: Mutation,
    second: Mutation,
    third: Mutation,
)
    ensures
        store_after(store, seq![first, second, third]) == store_after(
            store_after(store_after(store, seq![first]), seq![second]),
            seq![third],
        ),
{
    let three = seq![first, second, third];
    assert(three.drop_last() =~= seq![first, second]);
    lemma_store_after_two(store, first, second);
    lemma_store_after_two(store_after(store, seq![first, second]), third, third);
}

/// Creating a message stores its contents, a zero poll tag and its
/// visibility time under its three keys, and touches no other key.
pub proof fn lemma_creation_stores_message(
    store: StoreModel,
    id: u64,
    contents: Seq<u8>,
    visible_ts: i64,
    key: Seq<u8>,
)
    ensures
        ({
            let after = store_after(store, message_creation(id, contents, visible_ts));
            &&& after.contains_key(key_bytes(RocksDbKeyPrefix::MessageData, id))
            &&& after[key_bytes(RocksDbKeyPrefix::MessageData, id)] == contents
            &&& after.contains_key(key_bytes(RocksDbKeyPrefix::MessagePollTag, id))
            &&& after[key_bytes(RocksDbKeyPrefix::MessagePollTag, id)] == u32_le(0)
            &&& after.contains_key(key_bytes(RocksDbKeyPrefix::MessageVisibleTimestampSec, id))
            &&& after[key_bytes(RocksDbKeyPrefix::MessageVisibleTimestampSec, id)] == i40_le(
                visible_ts,
            )
            &&& !is_key_of(key, id) ==> after.contains_key(key) == store.contains_key(key)
                && after[key] == store[key]
        }),
{
    let data = Mutation::Insert { key: key_bytes(RocksDbKeyPrefix::MessageData, id), value: contents };
    let tag = Mutation::Insert {
        key: key_bytes(RocksDbKeyPrefix::MessagePollTag, id),
        value: u32_le(0),
    };
    let ts = Mutation::Insert {
        key: key_bytes(RocksDbKeyPrefix::MessageVisibleTimestampSec, id),
        value: i40_le(visible_ts),
    };
    assert(message_creation(id, contents, visible_ts) =~= seq![data, tag, ts]);
    lemma_store_after_three(store, data, tag, ts);
    lemma_store_after_two(store, data, data);
    lemma_store_after_two(store_after(store, seq![data]), tag, tag);
    lemma_store_after_two(store_after(store_after(store, seq![data]), seq![tag]), ts, ts);
    lemma_keys_distinct(
        RocksDbKeyPrefix::MessageData,
        id,
        RocksDbKeyPrefix::MessagePollTag,
        id,
    );
    lemma_keys_distinct(
        RocksDbKeyPrefix::MessageData,
        id,
        RocksDbKeyPrefix::MessageVisibleTimestampSec,
        id,
    );
    lemma_keys_distinct(
        RocksDbKeyPrefix::MessagePollTag,
        id,
        RocksDbKeyPrefix::MessageVisibleTimestampSec,
        id,
    );
}

/// Updating a message stores its new poll tag and visibility time, and
/// touches no other key: its contents stay.
pub proof fn lemma_update_stores_visibility(
    store: StoreModel,
    id: u64,
    poll_tag: u32,
    visible_ts: i64,
    key: Seq<u8>,
)
    ensures
        ({
            let after = store_after(store, visibility_update(id, poll_tag, visible_ts));
            &&& after.contains_key(key_bytes(RocksDbKeyPrefix::MessagePollTag, id))
            &&& after[key_bytes(RocksDbKeyPrefix::MessagePollTag, id)] == u32_le(poll_tag)
            &&& after.contains_key(key_bytes(RocksDbKeyPrefix::MessageVisibleTimestampSec, id))
            &&& after[key_bytes(RocksDbKeyPrefix::MessageVisibleTimestampSec, id)] == i40_le(
                visible_ts,
            )
            &&& key != key_bytes(RocksDbKeyPrefix::MessagePollTag, id) && key != key_bytes(
                RocksDbKeyPrefix::MessageVisibleTimestampSec,
                id,
            ) ==> after.contains_key(key) == store.contains_key(key) && after[key] == store[key]
        }),
{
    let tag = Mutation::Insert {
        key: key_bytes(RocksDbKeyPrefix::MessagePollTag, id),
        value: u32_le(poll_tag),
    };
    let ts = Mutation::Insert {
        key: key_bytes(RocksDbKeyPrefix::MessageVisibleTimestampSec, id),
        value: i40_le(visible_ts),
    };
    assert(visibility_update(id, poll_tag, visible_ts) =~= seq![tag, ts]);
    lemma_store_after_two(store, tag, ts);
    lemma_store_after_two(store_after(store, seq![tag]), ts, ts);
    lemma_keys_distinct(
        RocksDbKeyPrefix::MessagePollTag,
        id,
        RocksDbKeyPrefix::MessageVisibleTimestampSec,
        id,
    );
}

/// Erasing a message leaves none of its three keys, and touches no other
/// key.
pub proof fn lemma_removal_erases_message(store: StoreModel, id: u64, key: Seq<u8>)
    ensures
        ({
            let after = store_after(store, message_removal(id));
            &&& is_key_of(key, id) ==> !after.contains_key(key)
            &&& !is_key_of(key, id) ==> after.contains_key(key) == store.contains_key(key)
                && after[key] == store[key]
        }),
{
    let data = Mutation::Remove { key: key_bytes(RocksDbKeyPrefix::MessageData, id) };
    let tag = Mutation::Remove { key: key_bytes(RocksDbKeyPrefix::MessagePollTag, id) };
    let ts = Mutation::Remove { key: key_bytes(RocksDbKeyPrefix::MessageVisibleTimestampSec, id) };
    assert(message_removal(id) =~= seq![data, tag, ts]);
    lemma_store_after_three(store, data, tag, ts);
    lemma_store_after_two(store, data, data);
    lemma_store_after_two(store_after(store, seq![data]), tag, tag);
    lemma_store_after_two(store_after(store_after(store, seq![data]), seq![tag]), ts, ts);
}

/// Copies `src` into a vector.
fn to_vec(src: &[u8]) -> (out: Vec<u8>)
    ensures
        out@ == src@,
{
    let mut out: Vec<u8> = Vec::new();
    crate::slot::append_bytes(&mut out, src);
    assert(out@ =~= src@);
    out
}

/// Stages a new poll tag and visibility time for `id`.
pub fn stage_visibility_update(batch: &mut WriteBatch, id: u64, poll_tag: u32, visible_ts: i64)
    ensures
        final(batch)@ == old(batch)@ + visibility_update(id, poll_tag, visible_ts),
{
    let tag_bytes = create_u32_le(poll_tag);
    let ts_bytes = create_i40_le(visible_ts);
    batch.insert(rocksdb_key(RocksDbKeyPrefix::MessagePollTag, id), to_vec(tag_bytes.as_slice()));
    batch.insert(
        rocksdb_key(RocksDbKeyPrefix::MessageVisibleTimestampSec, id),
        to_vec(ts_bytes.as_slice()),
    );
    assert(batch@ =~= old(batch)@ + visibility_update(id, poll_tag, visible_ts));
}

/// Stages the erasure of message `id`.
pub fn stage_message_removal(batch: &mut WriteBatch, id: u64)
    ensures
        final(batch)@ == old(batch)@ + message_removal(id),
{
    batch.remove(rocksdb_key(RocksDbKeyPrefix::MessageData, id));
    batch.remove(rocksdb_key(RocksDbKeyPrefix::MessagePollTag, id));
    batch.remove(rocksdb_key(RocksDbKeyPrefix::MessageVisibleTimestampSec, id));
    assert(batch@ =~= old(batch)@ + message_removal(id));
}

/// Stages a new message.
pub fn stage_message_creation(batch: &mut WriteBatch, id: u64, contents: &str, visible_ts: i64)
    ensures
        final(batch)@ == old(batch)@ + message_creation(id, contents.spec_bytes(), visible_ts),
{
    batch.insert(rocksdb_key(RocksDbKeyPrefix::MessageData, id), to_vec(contents.as_bytes()));
    stage_visibility_update(batch, id, 0, visible_ts);
    assert(batch@ =~= old(batch)@ + message_creation(id, contents.spec_bytes(), visible_ts));
}

} // verus!
