//! Poll tags: the single-use handle a consumer presents to acknowledge or
//! extend a delivery.

use rand::RngCore;
use vstd::prelude::*;

verus! {

/// The lower-case hexadecimal digit for a value below sixteen.
pub open spec fn hex_digit(n: u8) -> char
    recommends
        n < 16,
{
    if n < 10 {
        (0x30 + n) as char
    } else {
        (0x57 + n) as char
    }
}

/// The lower-case hexadecimal rendering of `bytes`: two digits per byte,
/// high nibble first.
pub open spec fn hex_of(bytes: Seq<u8>) -> Seq<char> {
    Seq::new(
        2 * bytes.len(),
        |i: int|
            hex_digit(
                if i % 2 == 0 {
                    bytes[i / 2] / 16
                } else {
                    bytes[i / 2] % 16
                },
            ),
    )
}

/// Calls `hex::encode`.
///
/// Trusted: the result holds two lower-case hexadecimal digits for each
/// byte of `bytes`, in order, the high nibble first.
#[verifier::external_body]
pub(crate) fn hex_encode(bytes: &[u8]) -> (text: String)
    ensures
        text@ == hex_of(bytes@),
{
    hex::encode(bytes)
}

/// Fills thirty bytes from `rand::thread_rng` with `RngCore::fill_bytes`.
///
/// Trusted: the call returns. Nothing is claimed of the bytes.
#[verifier::external_body]
pub(crate) fn random_token() -> (token: [u8; 30]) {
    let mut token = [0u8; 30];
    rand::thread_rng().fill_bytes(&mut token);
    token
}

/// Length in bytes of the random token used by the slot layout.
pub const POLL_TOKEN_LEN: usize = 30;

/// The handle guarding one delivery of a message.
///
/// The keyed layout counts deliveries with a 32-bit integer; the slot layout
/// draws a fresh 30-byte random token for each delivery.
#[derive(Clone, Copy, Debug)]
pub enum PollTag {
    Counter(u32),
    Token([u8; 30]),
}

impl PollTag {
    /// The tag a message of the keyed layout carries before its first delivery.
    pub fn initial_counter() -> (t: PollTag)
        ensures
            t == PollTag::Counter(0),
    {
        PollTag::Counter(0)
    }

    /// The tag a slot carries before its first delivery: thirty zero bytes.
    pub fn zero_token() -> (t: PollTag)
        ensures
            t matches PollTag::Token(bytes) && forall|i: int| 0 <= i < 30 ==> bytes[i] == 0u8,
    {
        PollTag::Token([0u8; 30])
    }

    /// A tag for a new delivery under the slot layout: thirty random bytes.
    pub fn fresh_token() -> (t: PollTag)
        ensures
            t is Token,
    {
        PollTag::Token(random_token())
    }

    /// Whether two tags are the same tag.
    pub fn matches(&self, other: &PollTag) -> (same: bool)
        ensures
            same == (*self == *other),
    {
        match (self, other) {
            (PollTag::Counter(a), PollTag::Counter(b)) => *a == *b,
            (PollTag::Token(a), PollTag::Token(b)) => same_token(a, b),
            _ => false,
        }
    }
}

/// The token as a client sees it in a poll response: lower-case hexadecimal.
pub fn token_hex(token: &[u8; 30]) -> (text: String)
    ensures
        text@ == hex_of(token@),
{
    hex_encode(token.as_slice())
}

/// Whether two tokens hold the same thirty bytes.
pub fn same_token(a: &[u8; 30], b: &[u8; 30]) -> (same: bool)
    ensures
        same == (*a == *b),
{
    let mut i: usize = 0;
    while i < 30
        invariant
            0 <= i <= 30,
            forall|j: int| 0 <= j < i ==> a@[j] == b@[j],
        decreases 30 - i,
    {
        if a[i] != b[i] {
            assert(a@[i as int] != b@[i as int]);
            assert(*a != *b);
            return false;
        }
        i += 1;
    }
    assert(*a =~= *b);
    true
}

} // verus!
