//! Fixed-width integer encodings used by the on-disk layouts.

use vstd::prelude::*;

verus! {

/// The unsigned 64-bit pattern of a signed value in two's complement.
pub open spec fn twos_complement(v: i64) -> u64 {
    if v >= 0 {
        v as u64
    } else {
        (v + 0x1_0000_0000_0000_0000) as u64
    }
}

/// The signed value whose two's complement pattern is `u`.
pub open spec fn from_twos_complement(u: u64) -> i64 {
    if u < 0x8000_0000_0000_0000 {
        u as i64
    } else {
        (u - 0x1_0000_0000_0000_0000) as i64
    }
}

/// Big-endian encoding of a 16-bit value.
pub open spec fn u16_be(v: u16) -> Seq<u8> {
    seq![(v / 0x100) as u8, (v % 0x100) as u8]
}

/// Big-endian encoding of a 32-bit value.
pub open spec fn u32_be(v: u32) -> Seq<u8> {
    seq![
        (v / 0x100_0000) as u8,
        ((v / 0x1_0000) % 0x100) as u8,
        ((v / 0x100) % 0x100) as u8,
        (v % 0x100) as u8,
    ]
}

/// Big-endian encoding of a 64-bit value.
pub open spec fn u64_be(v: u64) -> Seq<u8> {
    seq![
        (v / 0x100_0000_0000_0000) as u8,
        ((v / 0x1_0000_0000_0000) % 0x100) as u8,
        ((v / 0x100_0000_0000) % 0x100) as u8,
        ((v / 0x1_0000_0000) % 0x100) as u8,
        ((v / 0x100_0000) % 0x100) as u8,
        ((v / 0x1_0000) % 0x100) as u8,
        ((v / 0x100) % 0x100) as u8,
        (v % 0x100) as u8,
    ]
}

/// Big-endian two's complement encoding of a signed 64-bit value.
pub open spec fn i64_be(v: i64) -> Seq<u8> {
    u64_be(twos_complement(v))
}

/// The value that two big-endian bytes encode.
pub open spec fn u16_from_be(s: Seq<u8>) -> u16
    recommends
        s.len() == 2,
{
    (s[0] as int * 0x100 + s[1] as int) as u16
}

/// The value that four big-endian bytes encode.
pub open spec fn u32_from_be(s: Seq<u8>) -> u32
    recommends
        s.len() == 4,
{
    (s[0] as int * 0x100_0000 + s[1] as int * 0x1_0000 + s[2] as int * 0x100 + s[3] as int) as u32
}

/// The value that eight big-endian bytes encode.
pub open spec fn u64_from_be(s: Seq<u8>) -> u64
    recommends
        s.len() == 8,
{
    (s[0] as int * 0x100_0000_0000_0000 + s[1] as int * 0x1_0000_0000_0000 + s[2] as int
        * 0x100_0000_0000 + s[3] as int * 0x1_0000_0000 + s[4] as int * 0x100_0000 + s[5] as int
        * 0x1_0000 + s[6] as int * 0x100 + s[7] as int) as u64
}

/// The signed value that eight big-endian bytes encode.
pub open spec fn i64_from_be(s: Seq<u8>) -> i64
    recommends
        s.len() == 8,
{
    from_twos_complement(u64_from_be(s))
}

/// Decoding undoes encoding, for each width.
pub proof fn lemma_be_round_trip(a: u16, b: u32, c: u64, d: i64)
    ensures
        u16_be(a).len() == 2,
        u32_be(b).len() == 4,
        u64_be(c).len() == 8,
        i64_be(d).len() == 8,
        u16_from_be(u16_be(a)) == a,
        u32_from_be(u32_be(b)) == b,
        u64_from_be(u64_be(c)) == c,
        i64_from_be(i64_be(d)) == d,
{
    lemma_u16_round_trip(a);
    lemma_u32_round_trip(b);
    lemma_u64_round_trip(c);
    lemma_u64_round_trip(twos_complement(d));
    assert(from_twos_complement(twos_complement(d)) == d);
}

proof fn lemma_u16_round_trip(a: u16)
    ensures
        u16_be(a).len() == 2,
        u16_from_be(u16_be(a)) == a,
{
    let s = u16_be(a);
    assert(s[0] == (a / 0x100) as u8);
    assert(s[1] == (a % 0x100) as u8);
    assert(a == (a / 0x100) * 0x100 + (a % 0x100)) by (bit_vector);
}

proof fn lemma_u32_round_trip(b: u32)
    ensures
        u32_be(b).len() == 4,
        u32_from_be(u32_be(b)) == b,
{
    let s = u32_be(b);
    assert(s[0] == (b / 0x100_0000) as u8);
    assert(s[1] == ((b / 0x1_0000) % 0x100) as u8);
    assert(s[2] == ((b / 0x100) % 0x100) as u8);
    assert(s[3] == (b % 0x100) as u8);
    assert(b == (b / 0x100_0000) * 0x100_0000 + ((b / 0x1_0000) % 0x100) * 0x1_0000 + ((b / 0x100)
        % 0x100) * 0x100 + (b % 0x100)) by (bit_vector);
}

proof fn lemma_u64_round_trip(c: u64)
    ensures
        u64_be(c).len() == 8,
        u64_from_be(u64_be(c)) == c,
{
    let s = u64_be(c);
    assert(s[0] == (c / 0x100_0000_0000_0000) as u8);
    assert(s[1] == ((c / 0x1_0000_0000_0000) % 0x100) as u8);
    assert(s[2] == ((c / 0x100_0000_0000) % 0x100) as u8);
    assert(s[3] == ((c / 0x1_0000_0000) % 0x100) as u8);
    assert(s[4] == ((c / 0x100_0000) % 0x100) as u8);
    assert(s[5] == ((c / 0x1_0000) % 0x100) as u8);
    assert(s[6] == ((c / 0x100) % 0x100) as u8);
    assert(s[7] == (c % 0x100) as u8);
    assert(c == (c / 0x100_0000_0000_0000) * 0x100_0000_0000_0000 + ((c / 0x1_0000_0000_0000)
        % 0x100) * 0x1_0000_0000_0000 + ((c / 0x100_0000_0000) % 0x100) * 0x100_0000_0000 + ((c
        / 0x1_0000_0000) % 0x100) * 0x1_0000_0000 + ((c / 0x100_0000) % 0x100) * 0x100_0000 + ((c
        / 0x1_0000) % 0x100) * 0x1_0000 + ((c / 0x100) % 0x100) * 0x100 + (c % 0x100))
        by (bit_vector);
}

/// Appends the big-endian encoding of `v` to `out`.
pub fn push_u16_be(out: &mut Vec<u8>, v: u16)
    ensures
        final(out)@ == old(out)@ + u16_be(v),
{
    out.push((v / 0x100) as u8);
    out.push((v % 0x100) as u8);
    assert(out@ =~= old(out)@ + u16_be(v));
}

/// Appends the big-endian encoding of `v` to `out`.
pub fn push_u32_be(out: &mut Vec<u8>, v: u32)
    ensures
        final(out)@ == old(out)@ + u32_be(v),
{
    out.push((v / 0x100_0000) as u8);
    out.push(((v / 0x1_0000) % 0x100) as u8);
    out.push(((v / 0x100) % 0x100) as u8);
    out.push((v % 0x100) as u8);
    assert(out@ =~= old(out)@ + u32_be(v));
}

/// Appends the big-endian encoding of `v` to `out`.
pub fn push_u64_be(out: &mut Vec<u8>, v: u64)
    ensures
        final(out)@ == old(out)@ + u64_be(v),
{
    out.push((v / 0x100_0000_0000_0000) as u8);
    out.push(((v / 0x1_0000_0000_0000) % 0x100) as u8);
    out.push(((v / 0x100_0000_0000) % 0x100) as u8);
    out.push(((v / 0x1_0000_0000) % 0x100) as u8);
    out.push(((v / 0x100_0000) % 0x100) as u8);
    out.push(((v / 0x1_0000) % 0x100) as u8);
    out.push(((v / 0x100) % 0x100) as u8);
    out.push((v % 0x100) as u8);
    assert(out@ =~= old(out)@ + u64_be(v));
}

/// The two's complement pattern of `v`.
pub fn to_twos_complement(v: i64) -> (u: u64)
    ensures
        u == twos_complement(v),
{
    if v >= 0 {
        v as u64
    } else {
        ((v - i64::MIN) as u64) + 0x8000_0000_0000_0000
    }
}

/// The signed value of the pattern `u`.
pub fn signed_from_twos_complement(u: u64) -> (v: i64)
    ensures
        v == from_twos_complement(u),
{
    if u < 0x8000_0000_0000_0000 {
        u as i64
    } else {
        ((u - 0x8000_0000_0000_0000) as i64) + i64::MIN
    }
}

/// Appends the big-endian two's complement encoding of `v` to `out`.
pub fn push_i64_be(out: &mut Vec<u8>, v: i64)
    ensures
        final(out)@ == old(out)@ + i64_be(v),
{
    push_u64_be(out, to_twos_complement(v));
}

/// Reads the big-endian 16-bit value at `at`.
pub fn read_u16_be(data: &[u8], at: usize) -> (v: u16)
    requires
        at + 2 <= data@.len(),
    ensures
        v == u16_from_be(data@.subrange(at as int, at + 2)),
{
    let v = (data[at] as u16) * 0x100 + (data[at + 1] as u16);
    v
}

/// Reads the big-endian 32-bit value at `at`.
pub fn read_u32_be(data: &[u8], at: usize) -> (v: u32)
    requires
        at + 4 <= data@.len(),
    ensures
        v == u32_from_be(data@.subrange(at as int, at + 4)),
{
    let v = (data[at] as u32) * 0x100_0000 + (data[at + 1] as u32) * 0x1_0000 + (data[at
        + 2] as u32) * 0x100 + (data[at + 3] as u32);
    v
}

/// Reads the big-endian 64-bit value at `at`.
pub fn read_u64_be(data: &[u8], at: usize) -> (v: u64)
    requires
        at + 8 <= data@.len(),
    ensures
        v == u64_from_be(data@.subrange(at as int, at + 8)),
{
    let v = (data[at] as u64) * 0x100_0000_0000_0000 + (data[at + 1] as u64) * 0x1_0000_0000_0000
        + (data[at + 2] as u64) * 0x100_0000_0000 + (data[at + 3] as u64) * 0x1_0000_0000 + (
    data[at + 4] as u64) * 0x100_0000 + (data[at + 5] as u64) * 0x1_0000 + (data[at + 6] as u64)
        * 0x100 + (data[at + 7] as u64);
    v
}

/// Reads the big-endian signed 64-bit value at `at`.
pub fn read_i64_be(data: &[u8], at: usize) -> (v: i64)
    requires
        at + 8 <= data@.len(),
    ensures
        v == i64_from_be(data@.subrange(at as int, at + 8)),
{
    signed_from_twos_complement(read_u64_be(data, at))
}

} // verus!
