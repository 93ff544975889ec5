//! Little-endian primitives over a byte buffer, addressed by absolute position.
use vstd::prelude::*;
use crate::model::ParseError;

verus! {

/// The `u16` whose little-endian encoding is `b0 b1`.
pub open spec fn u16_le(b0: u8, b1: u8) -> u16 {
    ((b0 as u16) | ((b1 as u16) << 8u16)) as u16
}

/// The `u32` whose little-endian encoding is `b0 b1 b2 b3`.
pub open spec fn u32_le(b0: u8, b1: u8, b2: u8, b3: u8) -> u32 {
    ((b0 as u32) | ((b1 as u32) << 8u32) | ((b2 as u32) << 16u32) | ((b3 as u32) << 24u32)) as u32
}

/// The four little-endian bytes of `v`.
pub open spec fn u32_le_bytes(v: u32) -> Seq<u8> {
    seq![(v & 0xffu32) as u8, ((v >> 8u32) & 0xffu32) as u8, ((v >> 16u32) & 0xffu32) as u8, ((v >> 24u32) & 0xffu32) as u8]
}

/// The two little-endian bytes of `v`.
pub open spec fn u16_le_bytes(v: u16) -> Seq<u8> {
    seq![(v & 0xffu16) as u8, ((v >> 8u16) & 0xffu16) as u8]
}

/// The `u32` stored little-endian at `pos` of `b`.
pub open spec fn u32_at(b: Seq<u8>, pos: int) -> u32 {
    u32_le(b[pos], b[pos + 1], b[pos + 2], b[pos + 3])
}

/// The `u16` stored little-endian at `pos` of `b`.
pub open spec fn u16_at(b: Seq<u8>, pos: int) -> u16 {
    u16_le(b[pos], b[pos + 1])
}

/// The `i32` stored little-endian (two's complement) at `pos` of `b`.
pub open spec fn i32_at(b: Seq<u8>, pos: int) -> i32 {
    u32_at(b, pos) as i32
}

proof fn lemma_u32_bits(v: u32)
    ensures
        u32_le((v & 0xffu32) as u8, ((v >> 8u32) & 0xffu32) as u8, ((v >> 16u32) & 0xffu32) as u8, ((v >> 24u32) & 0xffu32) as u8) == v,
{
    assert(((((v & 0xffu32) as u8) as u32) | (((((v >> 8u32) & 0xffu32) as u8) as u32) << 8u32)
        | (((((v >> 16u32) & 0xffu32) as u8) as u32) << 16u32) | (((((v >> 24u32) & 0xffu32) as u8) as u32) << 24u32)) == v) by (bit_vector);
}

proof fn lemma_u32_bytes(b0: u8, b1: u8, b2: u8, b3: u8)
    ensures
        u32_le_bytes(u32_le(b0, b1, b2, b3)) == seq![b0, b1, b2, b3],
{
    let v = u32_le(b0, b1, b2, b3);
    assert((((b0 as u32) | ((b1 as u32) << 8u32) | ((b2 as u32) << 16u32) | ((b3 as u32) << 24u32)) & 0xffu32) as u8 == b0) by (bit_vector);
    assert(((((b0 as u32) | ((b1 as u32) << 8u32) | ((b2 as u32) << 16u32) | ((b3 as u32) << 24u32)) >> 8u32) & 0xffu32) as u8 == b1) by (bit_vector);
    assert(((((b0 as u32) | ((b1 as u32) << 8u32) | ((b2 as u32) << 16u32) | ((b3 as u32) << 24u32)) >> 16u32) & 0xffu32) as u8 == b2) by (bit_vector);
    assert(((((b0 as u32) | ((b1 as u32) << 8u32) | ((b2 as u32) << 16u32) | ((b3 as u32) << 24u32)) >> 24u32) & 0xffu32) as u8 == b3) by (bit_vector);
    assert(u32_le_bytes(v) =~= seq![b0, b1, b2, b3]);
}

/// Reading a `u32` (or the bit pattern of an `f32`) is the exact inverse of
/// its little-endian encoding, in both directions.
pub proof fn lemma_u32_round_trip(v: u32, b: Seq<u8>)
    requires
        b.len() == 4,
    ensures
        u32_at(u32_le_bytes(v), 0) == v,
        u32_le_bytes(u32_at(b, 0)) == b,
{
    lemma_u32_bits(v);
    lemma_u32_bytes(b[0], b[1], b[2], b[3]);
    assert(b =~= seq![b[0], b[1], b[2], b[3]]);
}

/// Reading an `i32` is the exact inverse of its little-endian two's complement
/// encoding, in both directions.
pub proof fn lemma_i32_round_trip(v: i32, b: Seq<u8>)
    requires
        b.len() == 4,
    ensures
        i32_at(u32_le_bytes(v as u32), 0) == v,
        u32_le_bytes(i32_at(b, 0) as u32) == b,
{
    lemma_u32_round_trip(v as u32, b);
    let w = u32_at(b, 0);
    assert((w as i32) as u32 == w) by (bit_vector);
    assert((v as u32) as i32 == v) by (bit_vector);
}

/// Reading a `u16` is the exact inverse of its little-endian encoding.
pub proof fn lemma_u16_round_trip(v: u16, b: Seq<u8>)
    requires
        b.len() == 2,
    ensures
        u16_at(u16_le_bytes(v), 0) == v,
        u16_le_bytes(u16_at(b, 0)) == b,
{
    assert(((((v & 0xffu16) as u8) as u16) | (((((v >> 8u16) & 0xffu16) as u8) as u16) << 8u16)) == v) by (bit_vector);
    let b0 = b[0];
    let b1 = b[1];
    assert((((b0 as u16) | ((b1 as u16) << 8u16)) & 0xffu16) as u8 == b0) by (bit_vector);
    assert(((((b0 as u16) | ((b1 as u16) << 8u16)) >> 8u16) & 0xffu16) as u8 == b1) by (bit_vector);
    assert(u16_le_bytes(u16_at(b, 0)) =~= b);
}

/// The byte at `pos`, or `Io` when `buf` ends before it.
pub fn u8_at(buf: &[u8], pos: usize) -> (r: Result<u8, ParseError>)
    ensures
        pos < buf@.len() ==> r == Ok::<u8, ParseError>(buf@[pos as int]),
        pos >= buf@.len() ==> r == Err::<u8, ParseError>(ParseError::Io),
{
    if pos < buf.len() {
        Ok(buf[pos])
    } else {
        Err(ParseError::Io)
    }
}

/// The little-endian `u16` at `pos`, or `Io` when `buf` ends before its last byte.
pub fn u16_at_pos(buf: &[u8], pos: usize) -> (r: Result<u16, ParseError>)
    ensures
        pos + 2 <= buf@.len() ==> r == Ok::<u16, ParseError>(u16_at(buf@, pos as int)),
        pos + 2 > buf@.len() ==> r == Err::<u16, ParseError>(ParseError::Io),
{
    if pos <= buf.len() && buf.len() - pos >= 2 {
        let b0 = buf[pos];
        let b1 = buf[pos + 1];
        Ok((b0 as u16) | ((b1 as u16) << 8u16))
    } else {
        Err(ParseError::Io)
    }
}

/// The little-endian `u32` at `pos`, or `Io` when `buf` ends before its last byte.
pub fn u32_at_pos(buf: &[u8], pos: usize) -> (r: Result<u32, ParseError>)
    ensures
        pos + 4 <= buf@.len() ==> r == Ok::<u32, ParseError>(u32_at(buf@, pos as int)),
        pos + 4 > buf@.len() ==> r == Err::<u32, ParseError>(ParseError::Io),
{
    if pos <= buf.len() && buf.len() - pos >= 4 {
        let b0 = buf[pos];
        let b1 = buf[pos + 1];
        let b2 = buf[pos + 2];
        let b3 = buf[pos + 3];
        Ok((b0 as u32) | ((b1 as u32) << 8u32) | ((b2 as u32) << 16u32) | ((b3 as u32) << 24u32))
    } else {
        Err(ParseError::Io)
    }
}

} // verus!
