//! Big-endian integer encodings and byte-sequence building used by the
//! container format and the authenticated-data layouts.
use vstd::prelude::*;

verus! {

/// Big-endian bytes of a `u16`.
pub open spec fn be16(x: u16) -> Seq<u8> {
    seq![(x >> 8u16) as u8, x as u8]
}

/// Big-endian bytes of a `u32`.
pub open spec fn be32(x: u32) -> Seq<u8> {
    seq![(x >> 24u32) as u8, (x >> 16u32) as u8, (x >> 8u32) as u8, x as u8]
}

/// Big-endian bytes of a `u64`.
pub open spec fn be64(x: u64) -> Seq<u8> {
    seq![
        (x >> 56u64) as u8,
        (x >> 48u64) as u8,
        (x >> 40u64) as u8,
        (x >> 32u64) as u8,
        (x >> 24u64) as u8,
        (x >> 16u64) as u8,
        (x >> 8u64) as u8,
        x as u8,
    ]
}

/// Big-endian bytes of an `i64` (two's complement).
pub open spec fn be64_signed(x: i64) -> Seq<u8> {
    be64(x as u64)
}

/// The `u16` whose big-endian bytes start `b`.
pub open spec fn from_be16(b: Seq<u8>) -> u16 {
    ((b[0] as u16) << 8u16) | (b[1] as u16)
}

/// The `u32` whose big-endian bytes start `b`.
pub open spec fn from_be32(b: Seq<u8>) -> u32 {
    ((b[0] as u32) << 24u32) | ((b[1] as u32) << 16u32) | ((b[2] as u32) << 8u32) | (b[3] as u32)
}

/// The `u64` whose big-endian bytes start `b`.
pub open spec fn from_be64(b: Seq<u8>) -> u64 {
    ((b[0] as u64) << 56u64) | ((b[1] as u64) << 48u64) | ((b[2] as u64) << 40u64) | ((b[3] as u64)
        << 32u64) | ((b[4] as u64) << 24u64) | ((b[5] as u64) << 16u64) | ((b[6] as u64) << 8u64)
        | (b[7] as u64)
}

pub proof fn lemma_be16_round_trip(x: u16)
    ensures
        from_be16(be16(x)) == x,
{
    let b0 = (x >> 8u16) as u8;
    let b1 = x as u8;
    assert(((b0 as u16) << 8u16) | (b1 as u16) == x) by (bit_vector)
        requires
            b0 == (x >> 8u16) as u8,
            b1 == x as u8,
    ;
}

pub proof fn lemma_be32_round_trip(x: u32)
    ensures
        from_be32(be32(x)) == x,
{
    let b0 = (x >> 24u32) as u8;
    let b1 = (x >> 16u32) as u8;
    let b2 = (x >> 8u32) as u8;
    let b3 = x as u8;
    assert(((b0 as u32) << 24u32) | ((b1 as u32) << 16u32) | ((b2 as u32) << 8u32) | (b3 as u32) == x)
        by (bit_vector)
        requires
            b0 == (x >> 24u32) as u8,
            b1 == (x >> 16u32) as u8,
            b2 == (x >> 8u32) as u8,
            b3 == x as u8,
    ;
}

pub proof fn lemma_be64_round_trip(x: u64)
    ensures
        from_be64(be64(x)) == x,
{
    let b0 = (x >> 56u64) as u8;
    let b1 = (x >> 48u64) as u8;
    let b2 = (x >> 40u64) as u8;
    let b3 = (x >> 32u64) as u8;
    let b4 = (x >> 24u64) as u8;
    let b5 = (x >> 16u64) as u8;
    let b6 = (x >> 8u64) as u8;
    let b7 = x as u8;
    assert(((b0 as u64) << 56u64) | ((b1 as u64) << 48u64) | ((b2 as u64) << 40u64) | ((b3 as u64)
        << 32u64) | ((b4 as u64) << 24u64) | ((b5 as u64) << 16u64) | ((b6 as u64) << 8u64) | (
    b7 as u64) == x) by (bit_vector)
        requires
            b0 == (x >> 56u64) as u8,
            b1 == (x >> 48u64) as u8,
            b2 == (x >> 40u64) as u8,
            b3 == (x >> 32u64) as u8,
            b4 == (x >> 24u64) as u8,
            b5 == (x >> 16u64) as u8,
            b6 == (x >> 8u64) as u8,
            b7 == x as u8,
    ;
}

pub proof fn lemma_be16_from_bytes(b: Seq<u8>)
    requires
        b.len() == 2,
    ensures
        be16(from_be16(b)) == b,
{
    let b0 = b[0];
    let b1 = b[1];
    let x = from_be16(b);
    assert((x >> 8u16) as u8 == b0 && x as u8 == b1) by (bit_vector)
        requires
            x == ((b0 as u16) << 8u16) | (b1 as u16),
    ;
    assert(be16(x) =~= b);
}

pub proof fn lemma_be32_from_bytes(b: Seq<u8>)
    requires
        b.len() == 4,
    ensures
        be32(from_be32(b)) == b,
{
    let b0 = b[0];
    let b1 = b[1];
    let b2 = b[2];
    let b3 = b[3];
    let x = from_be32(b);
    assert((x >> 24u32) as u8 == b0 && (x >> 16u32) as u8 == b1 && (x >> 8u32) as u8 == b2 && x as u8
        == b3) by (bit_vector)
        requires
            x == ((b0 as u32) << 24u32) | ((b1 as u32) << 16u32) | ((b2 as u32) << 8u32) | (b3 as u32),
    ;
    assert(be32(x) =~= b);
}

pub proof fn lemma_be64_from_bytes(b: Seq<u8>)
    requires
        b.len() == 8,
    ensures
        be64(from_be64(b)) == b,
{
    let b0 = b[0];
    let b1 = b[1];
    let b2 = b[2];
    let b3 = b[3];
    let b4 = b[4];
    let b5 = b[5];
    let b6 = b[6];
    let b7 = b[7];
    let x = from_be64(b);
    assert((x >> 56u64) as u8 == b0 && (x >> 48u64) as u8 == b1 && (x >> 40u64) as u8 == b2 && (x
        >> 32u64) as u8 == b3 && (x >> 24u64) as u8 == b4 && (x >> 16u64) as u8 == b5 && (x >> 8u64)
        as u8 == b6 && x as u8 == b7) by (bit_vector)
        requires
            x == ((b0 as u64) << 56u64) | ((b1 as u64) << 48u64) | ((b2 as u64) << 40u64) | ((
            b3 as u64) << 32u64) | ((b4 as u64) << 24u64) | ((b5 as u64) << 16u64) | ((b6 as u64)
                << 8u64) | (b7 as u64),
    ;
    assert(be64(x) =~= b);
}

/// Appends the big-endian bytes of a `u16`.
pub fn push_be16(out: &mut Vec<u8>, x: u16)
    ensures
        final(out)@ == old(out)@ + be16(x),
{
    out.push((x >> 8u16) as u8);
    out.push(x as u8);
    assert(final(out)@ =~= old(out)@ + be16(x));
}

/// Appends the big-endian bytes of a `u32`.
pub fn push_be32(out: &mut Vec<u8>, x: u32)
    ensures
        final(out)@ == old(out)@ + be32(x),
{
    out.push((x >> 24u32) as u8);
    out.push((x >> 16u32) as u8);
    out.push((x >> 8u32) as u8);
    out.push(x as u8);
    assert(final(out)@ =~= old(out)@ + be32(x));
}

/// Appends the big-endian bytes of a `u64`.
pub fn push_be64(out: &mut Vec<u8>, x: u64)
    ensures
        final(out)@ == old(out)@ + be64(x),
{
    out.push((x >> 56u64) as u8);
    out.push((x >> 48u64) as u8);
    out.push((x >> 40u64) as u8);
    out.push((x >> 32u64) as u8);
    out.push((x >> 24u64) as u8);
    out.push((x >> 16u64) as u8);
    out.push((x >> 8u64) as u8);
    out.push(x as u8);
    assert(final(out)@ =~= old(out)@ + be64(x));
}

/// Appends the big-endian bytes of a signed value.
pub fn push_be64_signed(out: &mut Vec<u8>, x: i64)
    ensures
        final(out)@ == old(out)@ + be64_signed(x),
{
    push_be64(out, x as u64);
}

/// Appends every byte of `bytes`.
pub fn push_all(out: &mut Vec<u8>, bytes: &[u8])
    ensures
        final(out)@ == old(out)@ + bytes@,
{
    let mut index: usize = 0;
    while index < bytes.len()
        invariant
            index <= bytes@.len(),
            out@ == old(out)@ + bytes@.subrange(0, index as int),
        decreases bytes@.len() - index,
    {
        out.push(bytes[index]);
        index = index + 1;
        assert(out@ =~= old(out)@ + bytes@.subrange(0, index as int));
    }
    assert(bytes@.subrange(0, bytes@.len() as int) =~= bytes@);
}

/// Reads a big-endian `u16` at `at`.
pub fn read_be16(bytes: &[u8], at: usize) -> (result: u16)
    requires
        at + 2 <= bytes@.len(),
    ensures
        result == from_be16(bytes@.subrange(at as int, at + 2)),
{
    ((bytes[at] as u16) << 8u16) | (bytes[at + 1] as u16)
}

/// Reads a big-endian `u32` at `at`.
pub fn read_be32(bytes: &[u8], at: usize) -> (result: u32)
    requires
        at + 4 <= bytes@.len(),
    ensures
        result == from_be32(bytes@.subrange(at as int, at + 4)),
{
    ((bytes[at] as u32) << 24u32) | ((bytes[at + 1] as u32) << 16u32) | ((bytes[at + 2] as u32)
        << 8u32) | (bytes[at + 3] as u32)
}

/// Reads a big-endian `u64` at `at`.
pub fn read_be64(bytes: &[u8], at: usize) -> (result: u64)
    requires
        at + 8 <= bytes@.len(),
    ensures
        result == from_be64(bytes@.subrange(at as int, at + 8)),
{
    ((bytes[at] as u64) << 56u64) | ((bytes[at + 1] as u64) << 48u64) | ((bytes[at + 2] as u64)
        << 40u64) | ((bytes[at + 3] as u64) << 32u64) | ((bytes[at + 4] as u64) << 24u64) | ((
    bytes[at + 5] as u64) << 16u64) | ((bytes[at + 6] as u64) << 8u64) | (bytes[at + 7] as u64)
}

/// Whether two byte strings are equal.
pub fn bytes_eq(a: &[u8], b: &[u8]) -> (result: bool)
    ensures
        result == (a@ == b@),
{
    if a.len() != b.len() {
        return false;
    }
    let mut i: usize = 0;
    while i < a.len()
        invariant
            a@.len() == b@.len(),
            i <= a@.len(),
            forall|j: int| 0 <= j < i ==> a@[j] == b@[j],
        decreases a@.len() - i,
    {
        if a[i] != b[i] {
            return false;
        }
        i = i + 1;
    }
    assert(a@ =~= b@);
    true
}

} // verus!
