//! Big-endian encodings of fixed-width unsigned integers.
use vstd::prelude::*;

verus! {

/// The 8 bytes of `v`, most significant first.
pub open spec fn u64_be(v: u64) -> Seq<u8> {
    seq![
        (v >> 56u64) as u8, (v >> 48u64) as u8, (v >> 40u64) as u8, (v >> 32u64) as u8,
        (v >> 24u64) as u8, (v >> 16u64) as u8, (v >> 8u64) as u8, v as u8,
    ]
}

/// The 4 bytes of `v`, most significant first.
pub open spec fn u32_be(v: u32) -> Seq<u8> {
    seq![(v >> 24u32) as u8, (v >> 16u32) as u8, (v >> 8u32) as u8, v as u8]
}

/// The 2 bytes of `v`, most significant first.
pub open spec fn u16_be(v: u16) -> Seq<u8> {
    seq![(v >> 8u16) as u8, v as u8]
}

/// The value of the 8 bytes of `b` read most significant first.
pub open spec fn u64_from_be(b: Seq<u8>) -> u64 {
    (b[0] as u64) << 56u64 | (b[1] as u64) << 48u64 | (b[2] as u64) << 40u64
        | (b[3] as u64) << 32u64 | (b[4] as u64) << 24u64 | (b[5] as u64) << 16u64
        | (b[6] as u64) << 8u64 | (b[7] as u64)
}

/// The value of the 4 bytes of `b` read most significant first.
pub open spec fn u32_from_be(b: Seq<u8>) -> u32 {
    (b[0] as u32) << 24u32 | (b[1] as u32) << 16u32 | (b[2] as u32) << 8u32 | (b[3] as u32)
}

/// The value of the 2 bytes of `b` read most significant first.
pub open spec fn u16_from_be(b: Seq<u8>) -> u16 {
    (b[0] as u16) << 8u16 | (b[1] as u16)
}

/// Reading back the bytes of a `u64` gives the `u64`.
pub proof fn lemma_u64_be_roundtrip(v: u64)
    ensures
        u64_from_be(u64_be(v)) == v,
        u64_be(v).len() == 8,
{
    let b = u64_be(v);
    let (b0, b1, b2, b3, b4, b5, b6, b7) = (b[0], b[1], b[2], b[3], b[4], b[5], b[6], b[7]);
    assert(b0 == (v >> 56u64) as u8 && b1 == (v >> 48u64) as u8 && b2 == (v >> 40u64) as u8
        && b3 == (v >> 32u64) as u8 && b4 == (v >> 24u64) as u8 && b5 == (v >> 16u64) as u8
        && b6 == (v >> 8u64) as u8 && b7 == v as u8);
    assert((b0 as u64) << 56u64 | (b1 as u64) << 48u64 | (b2 as u64) << 40u64
        | (b3 as u64) << 32u64 | (b4 as u64) << 24u64 | (b5 as u64) << 16u64
        | (b6 as u64) << 8u64 | (b7 as u64) == v) by (bit_vector)
        requires
            b0 == (v >> 56u64) as u8 && b1 == (v >> 48u64) as u8 && b2 == (v >> 40u64) as u8
                && b3 == (v >> 32u64) as u8 && b4 == (v >> 24u64) as u8 && b5 == (v >> 16u64) as u8
                && b6 == (v >> 8u64) as u8 && b7 == v as u8;
}

/// Reading back the bytes of a `u32` gives the `u32`.
pub proof fn lemma_u32_be_roundtrip(v: u32)
    ensures
        u32_from_be(u32_be(v)) == v,
        u32_be(v).len() == 4,
{
    let b = u32_be(v);
    let (b0, b1, b2, b3) = (b[0], b[1], b[2], b[3]);
    assert((b0 as u32) << 24u32 | (b1 as u32) << 16u32 | (b2 as u32) << 8u32 | (b3 as u32) == v)
        by (bit_vector)
        requires
            b0 == (v >> 24u32) as u8 && b1 == (v >> 16u32) as u8 && b2 == (v >> 8u32) as u8
                && b3 == v as u8;
}

/// Reading back the bytes of a `u16` gives the `u16`.
pub proof fn lemma_u16_be_roundtrip(v: u16)
    ensures
        u16_from_be(u16_be(v)) == v,
        u16_be(v).len() == 2,
{
    let b = u16_be(v);
    let (b0, b1) = (b[0], b[1]);
    assert((b0 as u16) << 8u16 | (b1 as u16) == v) by (bit_vector)
        requires
            b0 == (v >> 8u16) as u8 && b1 == v as u8;
}

/// Writing the value that 8 bytes stand for gives back those bytes.
pub proof fn lemma_u64_from_be_roundtrip(b: Seq<u8>)
    requires
        b.len() == 8,
    ensures
        u64_be(u64_from_be(b)) == b,
{
    let (b0, b1, b2, b3, b4, b5, b6, b7) = (b[0], b[1], b[2], b[3], b[4], b[5], b[6], b[7]);
    let v = u64_from_be(b);
    assert(
        (v >> 56u64) as u8 == b0 && (v >> 48u64) as u8 == b1 && (v >> 40u64) as u8 == b2
        && (v >> 32u64) as u8 == b3 && (v >> 24u64) as u8 == b4 && (v >> 16u64) as u8 == b5
        && (v >> 8u64) as u8 == b6 && v as u8 == b7
    ) by (bit_vector)
        requires
            v == (b0 as u64) << 56u64 | (b1 as u64) << 48u64 | (b2 as u64) << 40u64
                | (b3 as u64) << 32u64 | (b4 as u64) << 24u64 | (b5 as u64) << 16u64
                | (b6 as u64) << 8u64 | (b7 as u64);
    assert(u64_be(v) =~= b);
}

/// Writing the value that 4 bytes stand for gives back those bytes.
pub proof fn lemma_u32_from_be_roundtrip(b: Seq<u8>)
    requires
        b.len() == 4,
    ensures
        u32_be(u32_from_be(b)) == b,
{
    let (b0, b1, b2, b3) = (b[0], b[1], b[2], b[3]);
    let v = u32_from_be(b);
    assert((v >> 24u32) as u8 == b0 && (v >> 16u32) as u8 == b1 && (v >> 8u32) as u8 == b2
        && v as u8 == b3) by (bit_vector)
        requires
            v == (b0 as u32) << 24u32 | (b1 as u32) << 16u32 | (b2 as u32) << 8u32 | (b3 as u32);
    assert(u32_be(v) =~= b);
}

/// Writing the value that 2 bytes stand for gives back those bytes.
pub proof fn lemma_u16_from_be_roundtrip(b: Seq<u8>)
    requires
        b.len() == 2,
    ensures
        u16_be(u16_from_be(b)) == b,
{
    let (b0, b1) = (b[0], b[1]);
    let v = u16_from_be(b);
    assert((v >> 8u16) as u8 == b0 && v as u8 == b1) by (bit_vector)
        requires
            v == (b0 as u16) << 8u16 | (b1 as u16);
    assert(u16_be(v) =~= b);
}

} // verus!

verus! {

/// The bytes held by an optional vector.
pub open spec fn opt_bytes(r: Option<Vec<u8>>) -> Option<Seq<u8>> {
    match r {
        Some(v) => Some(v@),
        None => None,
    }
}

} // verus!

verus! {

/// The 4 bytes of `v`, least significant first.
pub open spec fn u32_le(v: u32) -> Seq<u8> {
    seq![v as u8, (v >> 8u32) as u8, (v >> 16u32) as u8, (v >> 24u32) as u8]
}

/// The value of the 4 bytes of `b` read least significant first.
pub open spec fn u32_from_le(b: Seq<u8>) -> u32 {
    (b[0] as u32) | (b[1] as u32) << 8u32 | (b[2] as u32) << 16u32 | (b[3] as u32) << 24u32
}

/// Reading back the little-endian bytes of a `u32` gives the `u32`.
pub proof fn lemma_u32_le_roundtrip(v: u32)
    ensures
        u32_from_le(u32_le(v)) == v,
        u32_le(v).len() == 4,
{
    let b = u32_le(v);
    let (b0, b1, b2, b3) = (b[0], b[1], b[2], b[3]);
    assert((b0 as u32) | (b1 as u32) << 8u32 | (b2 as u32) << 16u32 | (b3 as u32) << 24u32 == v)
        by (bit_vector)
        requires
            b0 == v as u8 && b1 == (v >> 8u32) as u8 && b2 == (v >> 16u32) as u8 && b3 == (v
                >> 24u32) as u8;
}

/// The value of the 4 bytes of `s` from `start` on, least significant first.
pub fn read_u32_le(s: &[u8], start: usize) -> (v: u32)
    requires
        start + 4 <= s.len(),
    ensures
        v == u32_from_le(s@.subrange(start as int, start + 4)),
{
    let ghost b = s@.subrange(start as int, start + 4);
    assert(b[0] == s[start as int] && b[1] == s[start + 1] && b[2] == s[start + 2] && b[3] == s[start + 3]);
    (s[start] as u32) | (s[start + 1] as u32) << 8u32 | (s[start + 2] as u32) << 16u32 | (s[start + 3] as u32) << 24u32
}

} // verus!
