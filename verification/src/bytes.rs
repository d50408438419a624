//! Little-endian byte images of the fixed-width unsigned integers, as
//! specification-level sequences, with the lemmas that reading the bytes
//! back recovers the value.

use vstd::prelude::*;

verus! {

/// The two little-endian bytes of a 16-bit value.
pub open spec fn u16_le(v: u16) -> Seq<u8> {
    seq![(v & 0xff) as u8, ((v >> 8) & 0xff) as u8]
}

/// The 16-bit value held by two little-endian bytes.
pub open spec fn u16_of(s: Seq<u8>) -> u16 {
    (s[0] as u16) | ((s[1] as u16) << 8)
}

pub proof fn lemma_u16_le(v: u16)
    ensures
        u16_le(v).len() == 2,
        u16_of(u16_le(v)) == v,
{
    assert((((v & 0xff) as u8) as u16) | ((((v >> 8) & 0xff) as u8) as u16) << 8 == v)
        by (bit_vector);
}

/// The four little-endian bytes of a 32-bit value.
pub open spec fn u32_le(v: u32) -> Seq<u8> {
    seq![
        (v & 0xff) as u8,
        ((v >> 8) & 0xff) as u8,
        ((v >> 16) & 0xff) as u8,
        ((v >> 24) & 0xff) as u8,
    ]
}

/// The 32-bit value held by four little-endian bytes.
pub open spec fn u32_of(s: Seq<u8>) -> u32 {
    (s[0] as u32) | ((s[1] as u32) << 8) | ((s[2] as u32) << 16) | ((s[3] as u32) << 24)
}

pub proof fn lemma_u32_le(v: u32)
    ensures
        u32_le(v).len() == 4,
        u32_of(u32_le(v)) == v,
{
    assert((((v & 0xff) as u8) as u32) | ((((v >> 8) & 0xff) as u8) as u32) << 8 | ((((v >> 16)
        & 0xff) as u8) as u32) << 16 | ((((v >> 24) & 0xff) as u8) as u32) << 24 == v)
        by (bit_vector);
}

/// The eight little-endian bytes of a 64-bit value.
pub open spec fn u64_le(v: u64) -> Seq<u8> {
    seq![
        (v & 0xff) as u8,
        ((v >> 8) & 0xff) as u8,
        ((v >> 16) & 0xff) as u8,
        ((v >> 24) & 0xff) as u8,
        ((v >> 32) & 0xff) as u8,
        ((v >> 40) & 0xff) as u8,
        ((v >> 48) & 0xff) as u8,
        ((v >> 56) & 0xff) as u8,
    ]
}

/// The 64-bit value held by eight little-endian bytes.
pub open spec fn u64_of(s: Seq<u8>) -> u64 {
    (s[0] as u64) | ((s[1] as u64) << 8) | ((s[2] as u64) << 16) | ((s[3] as u64) << 24) | ((
    s[4] as u64) << 32) | ((s[5] as u64) << 40) | ((s[6] as u64) << 48) | ((s[7] as u64) << 56)
}

pub proof fn lemma_u64_le(v: u64)
    ensures
        u64_le(v).len() == 8,
        u64_of(u64_le(v)) == v,
{
    assert((((v & 0xff) as u8) as u64) | ((((v >> 8) & 0xff) as u8) as u64) << 8 | ((((v >> 16)
        & 0xff) as u8) as u64) << 16 | ((((v >> 24) & 0xff) as u8) as u64) << 24 | ((((v >> 32)
        & 0xff) as u8) as u64) << 32 | ((((v >> 40) & 0xff) as u8) as u64) << 40 | ((((v >> 48)
        & 0xff) as u8) as u64) << 48 | ((((v >> 56) & 0xff) as u8) as u64) << 56 == v)
        by (bit_vector);
}

/// Appends the two little-endian bytes of `v` to `buffer`.
pub fn write_u16_le(v: u16, buffer: &mut Vec<u8>)
    ensures
        final(buffer)@ == old(buffer)@ + u16_le(v),
{
    buffer.push((v & 0xff) as u8);
    buffer.push(((v >> 8) & 0xff) as u8);
    proof {
        assert(buffer@ =~= old(buffer)@ + u16_le(v));
    }
}

/// Reads a 16-bit value from two little-endian bytes at `*progress`.
pub fn read_u16_le(progress: &mut usize, buffer: &[u8]) -> (r: u16)
    requires
        *old(progress) + 2 <= buffer@.len(),
    ensures
        r == u16_of(buffer@.subrange(*old(progress) as int, *old(progress) + 2)),
        *final(progress) == *old(progress) + 2,
{
    let ghost pos0 = *progress as int;
    let b0 = buffer[*progress];
    let b1 = buffer[*progress + 1];
    *progress = *progress + 2;
    proof {
        let s = buffer@.subrange(pos0, pos0 + 2);
        assert(s[0] == b0 && s[1] == b1);
    }
    (b0 as u16) | ((b1 as u16) << 8)
}

/// Appends the four little-endian bytes of `v` to `buffer`.
pub fn write_u32_le(v: u32, buffer: &mut Vec<u8>)
    ensures
        final(buffer)@ == old(buffer)@ + u32_le(v),
{
    buffer.push((v & 0xff) as u8);
    buffer.push(((v >> 8) & 0xff) as u8);
    buffer.push(((v >> 16) & 0xff) as u8);
    buffer.push(((v >> 24) & 0xff) as u8);
    proof {
        assert(buffer@ =~= old(buffer)@ + u32_le(v));
    }
}

/// Reads a 32-bit value from four little-endian bytes at `*progress`.
pub fn read_u32_le(progress: &mut usize, buffer: &[u8]) -> (r: u32)
    requires
        *old(progress) + 4 <= buffer@.len(),
    ensures
        r == u32_of(buffer@.subrange(*old(progress) as int, *old(progress) + 4)),
        *final(progress) == *old(progress) + 4,
{
    let ghost pos0 = *progress as int;
    let b0 = buffer[*progress];
    let b1 = buffer[*progress + 1];
    let b2 = buffer[*progress + 2];
    let b3 = buffer[*progress + 3];
    *progress = *progress + 4;
    proof {
        let s = buffer@.subrange(pos0, pos0 + 4);
        assert(s[0] == b0 && s[1] == b1 && s[2] == b2 && s[3] == b3);
    }
    (b0 as u32) | ((b1 as u32) << 8) | ((b2 as u32) << 16) | ((b3 as u32) << 24)
}

/// Appends the eight little-endian bytes of `v` to `buffer`.
pub fn write_u64_le(v: u64, buffer: &mut Vec<u8>)
    ensures
        final(buffer)@ == old(buffer)@ + u64_le(v),
{
    buffer.push((v & 0xff) as u8);
    buffer.push(((v >> 8) & 0xff) as u8);
    buffer.push(((v >> 16) & 0xff) as u8);
    buffer.push(((v >> 24) & 0xff) as u8);
    buffer.push(((v >> 32) & 0xff) as u8);
    buffer.push(((v >> 40) & 0xff) as u8);
    buffer.push(((v >> 48) & 0xff) as u8);
    buffer.push(((v >> 56) & 0xff) as u8);
    proof {
        assert(buffer@ =~= old(buffer)@ + u64_le(v));
    }
}

/// Reads a 64-bit value from eight little-endian bytes at `*progress`.
pub fn read_u64_le(progress: &mut usize, buffer: &[u8]) -> (r: u64)
    requires
        *old(progress) + 8 <= buffer@.len(),
    ensures
        r == u64_of(buffer@.subrange(*old(progress) as int, *old(progress) + 8)),
        *final(progress) == *old(progress) + 8,
{
    let ghost pos0 = *progress as int;
    let b0 = buffer[*progress];
    let b1 = buffer[*progress + 1];
    let b2 = buffer[*progress + 2];
    let b3 = buffer[*progress + 3];
    let b4 = buffer[*progress + 4];
    let b5 = buffer[*progress + 5];
    let b6 = buffer[*progress + 6];
    let b7 = buffer[*progress + 7];
    *progress = *progress + 8;
    proof {
        let s = buffer@.subrange(pos0, pos0 + 8);
        assert(s[0] == b0 && s[1] == b1 && s[2] == b2 && s[3] == b3 && s[4] == b4 && s[5] == b5
            && s[6] == b6 && s[7] == b7);
    }
    (b0 as u64) | ((b1 as u64) << 8) | ((b2 as u64) << 16) | ((b3 as u64) << 24) | ((b4 as u64)
        << 32) | ((b5 as u64) << 40) | ((b6 as u64) << 48) | ((b7 as u64) << 56)
}

/// The sixteen little-endian bytes of a 128-bit value.
pub open spec fn u128_le(v: u128) -> Seq<u8> {
    seq![
        (v & 0xff) as u8,
        ((v >> 8) & 0xff) as u8,
        ((v >> 16) & 0xff) as u8,
        ((v >> 24) & 0xff) as u8,
        ((v >> 32) & 0xff) as u8,
        ((v >> 40) & 0xff) as u8,
        ((v >> 48) & 0xff) as u8,
        ((v >> 56) & 0xff) as u8,
        ((v >> 64) & 0xff) as u8,
        ((v >> 72) & 0xff) as u8,
        ((v >> 80) & 0xff) as u8,
        ((v >> 88) & 0xff) as u8,
        ((v >> 96) & 0xff) as u8,
        ((v >> 104) & 0xff) as u8,
        ((v >> 112) & 0xff) as u8,
        ((v >> 120) & 0xff) as u8,
    ]
}

/// The 128-bit value held by sixteen little-endian bytes.
pub open spec fn u128_of(s: Seq<u8>) -> u128 {
    (s[0] as u128) | ((s[1] as u128) << 8) | ((s[2] as u128) << 16) | ((s[3] as u128) << 24) | ((
    s[4] as u128) << 32) | ((s[5] as u128) << 40) | ((s[6] as u128) << 48) | ((s[7] as u128) << 56)
        | ((s[8] as u128) << 64) | ((s[9] as u128) << 72) | ((s[10] as u128) << 80) | ((
    s[11] as u128) << 88) | ((s[12] as u128) << 96) | ((s[13] as u128) << 104) | ((s[14] as u128)
        << 112) | ((s[15] as u128) << 120)
}

pub proof fn lemma_u128_le(v: u128)
    ensures
        u128_le(v).len() == 16,
        u128_of(u128_le(v)) == v,
{
    assert((((v & 0xff) as u8) as u128) | ((((v >> 8) & 0xff) as u8) as u128) << 8 | ((((v >> 16)
        & 0xff) as u8) as u128) << 16 | ((((v >> 24) & 0xff) as u8) as u128) << 24 | ((((v >> 32)
        & 0xff) as u8) as u128) << 32 | ((((v >> 40) & 0xff) as u8) as u128) << 40 | ((((v >> 48)
        & 0xff) as u8) as u128) << 48 | ((((v >> 56) & 0xff) as u8) as u128) << 56 | ((((v >> 64)
        & 0xff) as u8) as u128) << 64 | ((((v >> 72) & 0xff) as u8) as u128) << 72 | ((((v >> 80)
        & 0xff) as u8) as u128) << 80 | ((((v >> 88) & 0xff) as u8) as u128) << 88 | ((((v >> 96)
        & 0xff) as u8) as u128) << 96 | ((((v >> 104) & 0xff) as u8) as u128) << 104 | ((((v
        >> 112) & 0xff) as u8) as u128) << 112 | ((((v >> 120) & 0xff) as u8) as u128) << 120 == v)
        by (bit_vector);
}

/// Appends the sixteen little-endian bytes of `v` to `buffer`.
pub fn write_u128_le(v: u128, buffer: &mut Vec<u8>)
    ensures
        final(buffer)@ == old(buffer)@ + u128_le(v),
{
    buffer.push((v & 0xff) as u8);
    buffer.push(((v >> 8) & 0xff) as u8);
    buffer.push(((v >> 16) & 0xff) as u8);
    buffer.push(((v >> 24) & 0xff) as u8);
    buffer.push(((v >> 32) & 0xff) as u8);
    buffer.push(((v >> 40) & 0xff) as u8);
    buffer.push(((v >> 48) & 0xff) as u8);
    buffer.push(((v >> 56) & 0xff) as u8);
    buffer.push(((v >> 64) & 0xff) as u8);
    buffer.push(((v >> 72) & 0xff) as u8);
    buffer.push(((v >> 80) & 0xff) as u8);
    buffer.push(((v >> 88) & 0xff) as u8);
    buffer.push(((v >> 96) & 0xff) as u8);
    buffer.push(((v >> 104) & 0xff) as u8);
    buffer.push(((v >> 112) & 0xff) as u8);
    buffer.push(((v >> 120) & 0xff) as u8);
    proof {
        assert(buffer@ =~= old(buffer)@ + u128_le(v));
    }
}

/// Reads a 128-bit value from sixteen little-endian bytes at `*progress`.
pub fn read_u128_le(progress: &mut usize, buffer: &[u8]) -> (r: u128)
    requires
        *old(progress) + 16 <= buffer@.len(),
    ensures
        r == u128_of(buffer@.subrange(*old(progress) as int, *old(progress) + 16)),
        *final(progress) == *old(progress) + 16,
{
    let ghost pos0 = *progress as int;
    let b0 = buffer[*progress];
    let b1 = buffer[*progress + 1];
    let b2 = buffer[*progress + 2];
    let b3 = buffer[*progress + 3];
    let b4 = buffer[*progress + 4];
    let b5 = buffer[*progress + 5];
    let b6 = buffer[*progress + 6];
    let b7 = buffer[*progress + 7];
    let b8 = buffer[*progress + 8];
    let b9 = buffer[*progress + 9];
    let b10 = buffer[*progress + 10];
    let b11 = buffer[*progress + 11];
    let b12 = buffer[*progress + 12];
    let b13 = buffer[*progress + 13];
    let b14 = buffer[*progress + 14];
    let b15 = buffer[*progress + 15];
    *progress = *progress + 16;
    proof {
        let s = buffer@.subrange(pos0, pos0 + 16);
        assert(s[0] == b0 && s[1] == b1 && s[2] == b2 && s[3] == b3 && s[4] == b4 && s[5] == b5
            && s[6] == b6 && s[7] == b7 && s[8] == b8 && s[9] == b9 && s[10] == b10 && s[11] == b11
            && s[12] == b12 && s[13] == b13 && s[14] == b14 && s[15] == b15);
    }
    (b0 as u128) | ((b1 as u128) << 8) | ((b2 as u128) << 16) | ((b3 as u128) << 24) | ((
    b4 as u128) << 32) | ((b5 as u128) << 40) | ((b6 as u128) << 48) | ((b7 as u128) << 56) | ((
    b8 as u128) << 64) | ((b9 as u128) << 72) | ((b10 as u128) << 80) | ((b11 as u128) << 88) | ((
    b12 as u128) << 96) | ((b13 as u128) << 104) | ((b14 as u128) << 112) | ((b15 as u128) << 120)
}

} // verus!
