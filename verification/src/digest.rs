//! The integrity hash of the slot layout.

use vstd::prelude::*;

verus! {

/// Length in bytes of a digest.
pub const DIGEST_LEN: usize = 32;

/// The BLAKE3 digest of `input`, as computed by the `blake3` crate.
pub uninterp spec fn blake3_digest(input: Seq<u8>) -> Seq<u8>;

/// Calls `blake3::hash` and copies out the bytes of the hash it returns.
///
/// Trusted: the result is the 32-byte BLAKE3 digest of `input`, a function
/// of the input bytes alone. Nothing else is claimed of the digest.
#[verifier::external_body]
pub(crate) fn blake3_hash(input: &[u8]) -> (digest: [u8; 32])
    ensures
        digest@ == blake3_digest(input@),
{
    *blake3::hash(input).as_bytes()
}

} // verus!
