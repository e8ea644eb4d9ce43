//! Network byte order for the integers that travel in a frame.
//!
//! Every multi-byte integer on the wire is written most significant byte
//! first. Signed integers travel as their two's complement bit pattern.

use vstd::prelude::*;
use vstd::slice::slice_subrange;

verus! {

/// The two bytes of `x`, most significant first.
pub open spec fn be16(x: u16) -> Seq<u8> {
    seq![(x / 0x100) as u8, (x % 0x100) as u8]
}

/// The four bytes of `x`, most significant first: the bytes of its upper
/// half, then those of its lower half.
pub open spec fn be32(x: u32) -> Seq<u8> {
    be16((x / 0x1_0000) as u16) + be16((x % 0x1_0000) as u16)
}

/// The eight bytes of `x`, most significant first: the bytes of its upper
/// half, then those of its lower half.
pub open spec fn be64(x: u64) -> Seq<u8> {
    be32((x / 0x1_0000_0000) as u32) + be32((x % 0x1_0000_0000) as u32)
}

/// The number that the first two bytes of `b` spell, most significant first.
pub open spec fn from_be16(b: Seq<u8>) -> u16
    recommends
        b.len() >= 2,
{
    (b[0] * 0x100 + b[1]) as u16
}

/// The number that the first four bytes of `b` spell, most significant first.
pub open spec fn from_be32(b: Seq<u8>) -> u32
    recommends
        b.len() >= 4,
{
    (from_be16(b.subrange(0, 2)) * 0x1_0000 + from_be16(b.subrange(2, 4))) as u32
}

/// The number that the first eight bytes of `b` spell, most significant first.
pub open spec fn from_be64(b: Seq<u8>) -> u64
    recommends
        b.len() >= 8,
{
    (from_be32(b.subrange(0, 4)) * 0x1_0000_0000 + from_be32(b.subrange(4, 8))) as u64
}

/// The bit pattern of `x` in two's complement, read as an unsigned number.
pub open spec fn bits8(x: i8) -> u8 {
    if x < 0 {
        (x + 0x100) as u8
    } else {
        x as u8
    }
}

/// The bit pattern of `x` in two's complement, read as an unsigned number.
pub open spec fn bits16(x: i16) -> u16 {
    if x < 0 {
        (x + 0x1_0000) as u16
    } else {
        x as u16
    }
}

/// The bit pattern of `x` in two's complement, read as an unsigned number.
pub open spec fn bits32(x: i32) -> u32 {
    if x < 0 {
        (x + 0x1_0000_0000) as u32
    } else {
        x as u32
    }
}

/// The bit pattern of `x` in two's complement, read as an unsigned number.
pub open spec fn bits64(x: i64) -> u64 {
    if x < 0 {
        (x + 0x1_0000_0000_0000_0000) as u64
    } else {
        x as u64
    }
}

/// The signed number whose two's complement bit pattern is `u`.
pub open spec fn signed8(u: u8) -> i8 {
    if u >= 0x80 {
        (u - 0x100) as i8
    } else {
        u as i8
    }
}

/// The signed number whose two's complement bit pattern is `u`.
pub open spec fn signed16(u: u16) -> i16 {
    if u >= 0x8000 {
        (u - 0x1_0000) as i16
    } else {
        u as i16
    }
}

/// The signed number whose two's complement bit pattern is `u`.
pub open spec fn signed32(u: u32) -> i32 {
    if u >= 0x8000_0000 {
        (u - 0x1_0000_0000) as i32
    } else {
        u as i32
    }
}

/// The signed number whose two's complement bit pattern is `u`.
pub open spec fn signed64(u: u64) -> i64 {
    if u >= 0x8000_0000_0000_0000 {
        (u - 0x1_0000_0000_0000_0000) as i64
    } else {
        u as i64
    }
}

/// Reading back the two bytes of a number gives the number.
pub proof fn lemma_be16_round_trip(x: u16)
    ensures
        be16(x).len() == 2,
        from_be16(be16(x)) == x,
{
}

/// Two bytes are the bytes of the number that they spell.
pub proof fn lemma_from_be16_round_trip(b: Seq<u8>)
    requires
        b.len() == 2,
    ensures
        be16(from_be16(b)) == b,
{
    assert(be16(from_be16(b)) =~= b);
}

/// Reading back the four bytes of a number gives the number.
pub proof fn lemma_be32_round_trip(x: u32)
    ensures
        be32(x).len() == 4,
        from_be32(be32(x)) == x,
{
    let hi = (x / 0x1_0000) as u16;
    let lo = (x % 0x1_0000) as u16;
    lemma_be16_round_trip(hi);
    lemma_be16_round_trip(lo);
    assert(be32(x).subrange(0, 2) =~= be16(hi));
    assert(be32(x).subrange(2, 4) =~= be16(lo));
}

/// Four bytes are the bytes of the number that they spell.
pub proof fn lemma_from_be32_round_trip(b: Seq<u8>)
    requires
        b.len() == 4,
    ensures
        be32(from_be32(b)) == b,
{
    let hi = from_be16(b.subrange(0, 2));
    let lo = from_be16(b.subrange(2, 4));
    lemma_from_be16_round_trip(b.subrange(0, 2));
    lemma_from_be16_round_trip(b.subrange(2, 4));
    let x = from_be32(b);
    assert((x / 0x1_0000) as u16 == hi);
    assert((x % 0x1_0000) as u16 == lo);
    assert(b =~= b.subrange(0, 2) + b.subrange(2, 4));
}

/// Reading back the eight bytes of a number gives the number.
pub proof fn lemma_be64_round_trip(x: u64)
    ensures
        be64(x).len() == 8,
        from_be64(be64(x)) == x,
{
    let hi = (x / 0x1_0000_0000) as u32;
    let lo = (x % 0x1_0000_0000) as u32;
    lemma_be32_round_trip(hi);
    lemma_be32_round_trip(lo);
    assert(be64(x).subrange(0, 4) =~= be32(hi));
    assert(be64(x).subrange(4, 8) =~= be32(lo));
}

/// Eight bytes are the bytes of the number that they spell.
pub proof fn lemma_from_be64_round_trip(b: Seq<u8>)
    requires
        b.len() == 8,
    ensures
        be64(from_be64(b)) == b,
{
    let hi = from_be32(b.subrange(0, 4));
    let lo = from_be32(b.subrange(4, 8));
    lemma_from_be32_round_trip(b.subrange(0, 4));
    lemma_from_be32_round_trip(b.subrange(4, 8));
    let x = from_be64(b);
    assert((x / 0x1_0000_0000) as u32 == hi);
    assert((x % 0x1_0000_0000) as u32 == lo);
    assert(b =~= b.subrange(0, 4) + b.subrange(4, 8));
}

/// Appends the two bytes of `x` to `out`.
pub(crate) fn put_be16(out: &mut Vec<u8>, x: u16)
    ensures
        final(out)@ == old(out)@ + be16(x),
{
    out.push((x / 0x100) as u8);
    out.push((x % 0x100) as u8);
    assert(out@ =~= old(out)@ + be16(x));
}

/// Appends the four bytes of `x` to `out`.
pub(crate) fn put_be32(out: &mut Vec<u8>, x: u32)
    ensures
        final(out)@ == old(out)@ + be32(x),
{
    put_be16(out, (x / 0x1_0000) as u16);
    put_be16(out, (x % 0x1_0000) as u16);
    assert(out@ =~= old(out)@ + be32(x));
}

/// Appends the eight bytes of `x` to `out`.
pub(crate) fn put_be64(out: &mut Vec<u8>, x: u64)
    ensures
        final(out)@ == old(out)@ + be64(x),
{
    put_be32(out, (x / 0x1_0000_0000) as u32);
    put_be32(out, (x % 0x1_0000_0000) as u32);
    assert(out@ =~= old(out)@ + be64(x));
}

/// Reads the number that the first two bytes of `bytes` spell.
pub(crate) fn get_be16(bytes: &[u8]) -> (x: u16)
    requires
        bytes@.len() >= 2,
    ensures
        x == from_be16(bytes@),
{
    let hi: u16 = bytes[0] as u16;
    let lo: u16 = bytes[1] as u16;
    hi * 0x100 + lo
}

/// Reads the number that the first four bytes of `bytes` spell.
pub(crate) fn get_be32(bytes: &[u8]) -> (x: u32)
    requires
        bytes@.len() >= 4,
    ensures
        x == from_be32(bytes@),
{
    let hi: u32 = get_be16(slice_subrange(bytes, 0, 2)) as u32;
    let lo: u32 = get_be16(slice_subrange(bytes, 2, 4)) as u32;
    hi * 0x1_0000 + lo
}

/// Reads the number that the first eight bytes of `bytes` spell.
pub(crate) fn get_be64(bytes: &[u8]) -> (x: u64)
    requires
        bytes@.len() >= 8,
    ensures
        x == from_be64(bytes@),
{
    let hi: u64 = get_be32(slice_subrange(bytes, 0, 4)) as u64;
    let lo: u64 = get_be32(slice_subrange(bytes, 4, 8)) as u64;
    hi * 0x1_0000_0000 + lo
}

} // verus!
