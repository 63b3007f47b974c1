//! Fixed-width integers read out of byte sequences: big-endian for the
//! container format's description fields, little-endian for the embedded
//! command opcode.

use vstd::prelude::*;

verus! {

/// The u32 denoted by a 4-byte big-endian sequence.
pub open spec fn be_u32_of(b: Seq<u8>) -> u32
    recommends
        b.len() == 4,
{
    ((b[0] as u32) << 24) | ((b[1] as u32) << 16) | ((b[2] as u32) << 8) | (b[3] as u32)
}

/// The u64 denoted by an 8-byte big-endian sequence.
pub open spec fn be_u64_of(b: Seq<u8>) -> u64
    recommends
        b.len() == 8,
{
    ((b[0] as u64) << 56) | ((b[1] as u64) << 48) | ((b[2] as u64) << 40) | ((b[3] as u64) << 32)
        | ((b[4] as u64) << 24) | ((b[5] as u64) << 16) | ((b[6] as u64) << 8) | (b[7] as u64)
}

/// The i64 denoted by an 8-byte big-endian sequence (two's complement).
pub open spec fn be_i64_of(b: Seq<u8>) -> i64
    recommends
        b.len() == 8,
{
    be_u64_of(b) as i64
}

/// The u16 denoted by a 2-byte little-endian sequence.
pub open spec fn le_u16_of(b: Seq<u8>) -> u16
    recommends
        b.len() == 2,
{
    ((b[1] as u16) << 8) | (b[0] as u16)
}

/// The 4-byte big-endian encoding of a u32.
pub open spec fn be_u32_bytes(x: u32) -> Seq<u8> {
    seq![
        ((x >> 24) & 0xff) as u8,
        ((x >> 16) & 0xff) as u8,
        ((x >> 8) & 0xff) as u8,
        (x & 0xff) as u8,
    ]
}

/// Decoding inverts encoding: a u32 written big-endian reads back unchanged.
pub proof fn lemma_be_u32_round_trip(x: u32)
    ensures
        be_u32_of(be_u32_bytes(x)) == x,
{
    let b0 = ((x >> 24) & 0xff) as u8;
    let b1 = ((x >> 16) & 0xff) as u8;
    let b2 = ((x >> 8) & 0xff) as u8;
    let b3 = (x & 0xff) as u8;
    assert(((b0 as u32) << 24) | ((b1 as u32) << 16) | ((b2 as u32) << 8) | (b3 as u32) == x)
        by (bit_vector)
        requires
            b0 == ((x >> 24) & 0xff) as u8,
            b1 == ((x >> 16) & 0xff) as u8,
            b2 == ((x >> 8) & 0xff) as u8,
            b3 == (x & 0xff) as u8,
    ;
}

/// Reads the big-endian u32 at `pos`.
pub fn read_be_u32(bytes: &[u8], pos: usize) -> (r: u32)
    requires
        pos + 4 <= bytes@.len(),
    ensures
        r == be_u32_of(bytes@.subrange(pos as int, pos as int + 4)),
{
    let r = ((bytes[pos] as u32) << 24u32) | ((bytes[pos + 1] as u32) << 16u32) | ((bytes[pos
        + 2] as u32) << 8u32) | (bytes[pos + 3] as u32);
    r
}

/// Reads the big-endian u64 at `pos`.
pub fn read_be_u64(bytes: &[u8], pos: usize) -> (r: u64)
    requires
        pos + 8 <= bytes@.len(),
    ensures
        r == be_u64_of(bytes@.subrange(pos as int, pos as int + 8)),
{
    let r = ((bytes[pos] as u64) << 56u64) | ((bytes[pos + 1] as u64) << 48u64) | ((bytes[pos
        + 2] as u64) << 40u64) | ((bytes[pos + 3] as u64) << 32u64) | ((bytes[pos + 4] as u64)
        << 24u64) | ((bytes[pos + 5] as u64) << 16u64) | ((bytes[pos + 6] as u64) << 8u64) | (
    bytes[pos + 7] as u64);
    r
}

/// Reads the little-endian u16 at `pos`.
pub fn read_le_u16(bytes: &[u8], pos: usize) -> (r: u16)
    requires
        pos + 2 <= bytes@.len(),
    ensures
        r == le_u16_of(bytes@.subrange(pos as int, pos as int + 2)),
{
    let n = bytes.len();
    assert(pos + 2 <= n);
    let r = ((bytes[pos + 1] as u16) << 8u16) | (bytes[pos] as u16);
    r
}

} // verus!
