//! Fast-path implementations for the fixed-width scalar types: the
//! unsigned and signed integers, the platform-width sizes, `bool`, `char`,
//! and the fixed-size [`Timestamp`]. Multi-byte images are little-endian,
//! the host's in-memory order: this format is a same-build artifact, not a
//! portable wire protocol.

use vstd::prelude::*;

use crate::bytes::{
    lemma_u128_le, lemma_u16_le, lemma_u32_le, lemma_u64_le, read_u128_le, read_u16_le,
    read_u32_le, read_u64_le, u128_le, u128_of, u16_le, u16_of, u32_le, u32_of, u64_le, u64_of,
    write_u128_le, write_u16_le, write_u32_le, write_u64_le,
};
use crate::trivial::RealQuickSer;

verus! {

impl RealQuickSer for u16 {
    open spec fn size() -> nat {
        2
    }

    open spec fn image(&self) -> Seq<u8> {
        u16_le(*self)
    }

    open spec fn from_image(bytes: Seq<u8>) -> Self {
        u16_of(bytes)
    }

    proof fn lemma_image(&self) {
        lemma_u16_le(*self);
    }

    fn size_bytes() -> (n: usize) {
        2
    }

    fn write_image(&self, buffer: &mut Vec<u8>) {
        write_u16_le(*self, buffer);
    }

    fn read_image(progress: &mut usize, buffer: &[u8]) -> (r: Self) {
        read_u16_le(progress, buffer)
    }
}

impl RealQuickSer for u32 {
    open spec fn size() -> nat {
        4
    }

    open spec fn image(&self) -> Seq<u8> {
        u32_le(*self)
    }

    open spec fn from_image(bytes: Seq<u8>) -> Self {
        u32_of(bytes)
    }

    proof fn lemma_image(&self) {
        lemma_u32_le(*self);
    }

    fn size_bytes() -> (n: usize) {
        4
    }

    fn write_image(&self, buffer: &mut Vec<u8>) {
        write_u32_le(*self, buffer);
    }

    fn read_image(progress: &mut usize, buffer: &[u8]) -> (r: Self) {
        read_u32_le(progress, buffer)
    }
}

impl RealQuickSer for u64 {
    open spec fn size() -> nat {
        8
    }

    open spec fn image(&self) -> Seq<u8> {
        u64_le(*self)
    }

    open spec fn from_image(bytes: Seq<u8>) -> Self {
        u64_of(bytes)
    }

    proof fn lemma_image(&self) {
        lemma_u64_le(*self);
    }

    fn size_bytes() -> (n: usize) {
        8
    }

    fn write_image(&self, buffer: &mut Vec<u8>) {
        write_u64_le(*self, buffer);
    }

    fn read_image(progress: &mut usize, buffer: &[u8]) -> (r: Self) {
        read_u64_le(progress, buffer)
    }
}

impl RealQuickSer for u128 {
    open spec fn size() -> nat {
        16
    }

    open spec fn image(&self) -> Seq<u8> {
        u128_le(*self)
    }

    open spec fn from_image(bytes: Seq<u8>) -> Self {
        u128_of(bytes)
    }

    proof fn lemma_image(&self) {
        lemma_u128_le(*self);
    }

    fn size_bytes() -> (n: usize) {
        16
    }

    fn write_image(&self, buffer: &mut Vec<u8>) {
        write_u128_le(*self, buffer);
    }

    fn read_image(progress: &mut usize, buffer: &[u8]) -> (r: Self) {
        read_u128_le(progress, buffer)
    }
}

/// Size values (sequence counts, byte lengths) travel as eight bytes, the
/// widest platform size this codec is built for.
impl RealQuickSer for usize {
    open spec fn size() -> nat {
        8
    }

    open spec fn image(&self) -> Seq<u8> {
        u64_le(*self as u64)
    }

    open spec fn from_image(bytes: Seq<u8>) -> Self {
        u64_of(bytes) as usize
    }

    proof fn lemma_image(&self) {
        lemma_u64_le(*self as u64);
        assert((*self as u64) as usize == *self);
    }

    fn size_bytes() -> (n: usize) {
        8
    }

    fn write_image(&self, buffer: &mut Vec<u8>) {
        write_u64_le(*self as u64, buffer);
    }

    fn read_image(progress: &mut usize, buffer: &[u8]) -> (r: Self) {
        let wide = read_u64_le(progress, buffer);
        #[verifier::truncate] (wide as usize)
    }
}

impl RealQuickSer for i8 {
    open spec fn size() -> nat {
        1
    }

    open spec fn image(&self) -> Seq<u8> {
        seq![*self as u8]
    }

    open spec fn from_image(bytes: Seq<u8>) -> Self {
        bytes[0] as i8
    }

    proof fn lemma_image(&self) {
        let v = *self;
        assert((v as u8) as i8 == v) by (bit_vector);
    }

    fn size_bytes() -> (n: usize) {
        1
    }

    fn write_image(&self, buffer: &mut Vec<u8>) {
        buffer.push(*self as u8);
        proof {
            assert(buffer@ =~= old(buffer)@ + self.image());
        }
    }

    fn read_image(progress: &mut usize, buffer: &[u8]) -> (r: Self) {
        let ghost pos0 = *progress as int;
        let b = buffer[*progress];
        *progress = *progress + 1;
        proof {
            assert(buffer@.subrange(pos0, pos0 + 1)[0] == b);
        }
        #[verifier::truncate] (b as i8)
    }
}

impl RealQuickSer for i16 {
    open spec fn size() -> nat {
        2
    }

    open spec fn image(&self) -> Seq<u8> {
        u16_le(*self as u16)
    }

    open spec fn from_image(bytes: Seq<u8>) -> Self {
        u16_of(bytes) as i16
    }

    proof fn lemma_image(&self) {
        lemma_u16_le(*self as u16);
        let v = *self;
        assert((v as u16) as i16 == v) by (bit_vector);
    }

    fn size_bytes() -> (n: usize) {
        2
    }

    fn write_image(&self, buffer: &mut Vec<u8>) {
        write_u16_le(*self as u16, buffer);
    }

    fn read_image(progress: &mut usize, buffer: &[u8]) -> (r: Self) {
        let wide = read_u16_le(progress, buffer);
        #[verifier::truncate] (wide as i16)
    }
}

impl RealQuickSer for i32 {
    open spec fn size() -> nat {
        4
    }

    open spec fn image(&self) -> Seq<u8> {
        u32_le(*self as u32)
    }

    open spec fn from_image(bytes: Seq<u8>) -> Self {
        u32_of(bytes) as i32
    }

    proof fn lemma_image(&self) {
        lemma_u32_le(*self as u32);
        let v = *self;
        assert((v as u32) as i32 == v) by (bit_vector);
    }

    fn size_bytes() -> (n: usize) {
        4
    }

    fn write_image(&self, buffer: &mut Vec<u8>) {
        write_u32_le(*self as u32, buffer);
    }

    fn read_image(progress: &mut usize, buffer: &[u8]) -> (r: Self) {
        let wide = read_u32_le(progress, buffer);
        #[verifier::truncate] (wide as i32)
    }
}

impl RealQuickSer for i64 {
    open spec fn size() -> nat {
        8
    }

    open spec fn image(&self) -> Seq<u8> {
        u64_le(*self as u64)
    }

    open spec fn from_image(bytes: Seq<u8>) -> Self {
        u64_of(bytes) as i64
    }

    proof fn lemma_image(&self) {
        lemma_u64_le(*self as u64);
        let v = *self;
        assert((v as u64) as i64 == v) by (bit_vector);
    }

    fn size_bytes() -> (n: usize) {
        8
    }

    fn write_image(&self, buffer: &mut Vec<u8>) {
        write_u64_le(*self as u64, buffer);
    }

    fn read_image(progress: &mut usize, buffer: &[u8]) -> (r: Self) {
        let wide = read_u64_le(progress, buffer);
        #[verifier::truncate] (wide as i64)
    }
}

impl RealQuickSer for i128 {
    open spec fn size() -> nat {
        16
    }

    open spec fn image(&self) -> Seq<u8> {
        u128_le(*self as u128)
    }

    open spec fn from_image(bytes: Seq<u8>) -> Self {
        u128_of(bytes) as i128
    }

    proof fn lemma_image(&self) {
        lemma_u128_le(*self as u128);
        let v = *self;
        assert((v as u128) as i128 == v) by (bit_vector);
    }

    fn size_bytes() -> (n: usize) {
        16
    }

    fn write_image(&self, buffer: &mut Vec<u8>) {
        write_u128_le(*self as u128, buffer);
    }

    fn read_image(progress: &mut usize, buffer: &[u8]) -> (r: Self) {
        let wide = read_u128_le(progress, buffer);
        #[verifier::truncate] (wide as i128)
    }
}

/// Signed platform-width values travel as eight bytes, like `usize`.
impl RealQuickSer for isize {
    open spec fn size() -> nat {
        8
    }

    open spec fn image(&self) -> Seq<u8> {
        u64_le((*self as i64) as u64)
    }

    open spec fn from_image(bytes: Seq<u8>) -> Self {
        (u64_of(bytes) as i64) as isize
    }

    proof fn lemma_image(&self) {
        lemma_u64_le((*self as i64) as u64);
        let v = *self as i64;
        assert((v as u64) as i64 == v) by (bit_vector);
        assert((*self as i64) as isize == *self);
    }

    fn size_bytes() -> (n: usize) {
        8
    }

    fn write_image(&self, buffer: &mut Vec<u8>) {
        write_u64_le((*self as i64) as u64, buffer);
    }

    fn read_image(progress: &mut usize, buffer: &[u8]) -> (r: Self) {
        let wide = read_u64_le(progress, buffer);
        #[verifier::truncate] ((#[verifier::truncate] (wide as i64)) as isize)
    }
}

/// A boolean's image is one byte; reading treats any set bit as true, as a
/// raw reinterpretation would.
impl RealQuickSer for bool {
    open spec fn size() -> nat {
        1
    }

    open spec fn image(&self) -> Seq<u8> {
        seq![
            if *self {
                1u8
            } else {
                0u8
            },
        ]
    }

    open spec fn from_image(bytes: Seq<u8>) -> Self {
        bytes[0] != 0
    }

    proof fn lemma_image(&self) {
    }

    fn size_bytes() -> (n: usize) {
        1
    }

    fn write_image(&self, buffer: &mut Vec<u8>) {
        buffer.push(if *self {
            1
        } else {
            0
        });
        proof {
            assert(buffer@ =~= old(buffer)@ + self.image());
        }
    }

    fn read_image(progress: &mut usize, buffer: &[u8]) -> (r: Self) {
        let ghost pos0 = *progress as int;
        let b = buffer[*progress];
        *progress = *progress + 1;
        proof {
            assert(buffer@.subrange(pos0, pos0 + 1)[0] == b);
        }
        b != 0
    }
}

/// Relies on char::from_u32: it returns `Some` exactly for Unicode scalar
/// values, and the returned character has the given code point.
#[verifier::external_body]
pub(crate) fn char_from_u32(v: u32) -> (r: Option<char>)
    ensures
        r is Some <==> vstd::utf8::is_scalar(v),
        r matches Some(c) ==> c as u32 == v,
{
    char::from_u32(v)
}

/// A character's image is the four little-endian bytes of its code point.
/// Reading back does not validate: a pattern that is no Unicode scalar
/// value falls back to the NUL character.
impl RealQuickSer for char {
    open spec fn size() -> nat {
        4
    }

    open spec fn image(&self) -> Seq<u8> {
        u32_le(*self as u32)
    }

    open spec fn from_image(bytes: Seq<u8>) -> Self {
        if vstd::utf8::is_scalar(u32_of(bytes)) {
            u32_of(bytes) as char
        } else {
            '\u{0}'
        }
    }

    proof fn lemma_image(&self) {
        lemma_u32_le(*self as u32);
        vstd::utf8::char_is_scalar(*self);
        vstd::utf8::char_u32_cast(*self, *self as u32);
    }

    fn size_bytes() -> (n: usize) {
        4
    }

    fn write_image(&self, buffer: &mut Vec<u8>) {
        write_u32_le(*self as u32, buffer);
    }

    fn read_image(progress: &mut usize, buffer: &[u8]) -> (r: Self) {
        let wide = read_u32_le(progress, buffer);
        match char_from_u32(wide) {
            Some(c) => {
                proof {
                    vstd::utf8::char_u32_cast(c, wide);
                }
                c
            },
            None => '\u{0}',
        }
    }
}

/// A fixed-size point in time: whole seconds and subsecond nanoseconds
/// relative to an epoch the caller chooses. It stands in for clock values,
/// whose own in-memory form the codec does not inspect; the boundary that
/// reads the clock converts to and from this pair.
#[derive(Clone, Copy, PartialEq, Eq, Structural, Debug)]
pub struct Timestamp {
    pub secs: u64,
    pub nanos: u32,
}

impl DeepView for Timestamp {
    type V = Timestamp;

    open spec fn deep_view(&self) -> Timestamp {
        *self
    }
}

impl RealQuickSer for Timestamp {
    open spec fn size() -> nat {
        12
    }

    open spec fn image(&self) -> Seq<u8> {
        u64_le(self.secs) + u32_le(self.nanos)
    }

    open spec fn from_image(bytes: Seq<u8>) -> Self {
        Timestamp { secs: u64_of(bytes.subrange(0, 8)), nanos: u32_of(bytes.subrange(8, 12)) }
    }

    proof fn lemma_image(&self) {
        lemma_u64_le(self.secs);
        lemma_u32_le(self.nanos);
        assert(self.image().subrange(0, 8) =~= u64_le(self.secs));
        assert(self.image().subrange(8, 12) =~= u32_le(self.nanos));
    }

    fn size_bytes() -> (n: usize) {
        12
    }

    fn write_image(&self, buffer: &mut Vec<u8>) {
        write_u64_le(self.secs, buffer);
        write_u32_le(self.nanos, buffer);
        proof {
            assert(buffer@ =~= old(buffer)@ + self.image());
        }
    }

    fn read_image(progress: &mut usize, buffer: &[u8]) -> (r: Self) {
        let ghost pos0 = *progress as int;
        let secs = read_u64_le(progress, buffer);
        let nanos = read_u32_le(progress, buffer);
        proof {
            let s = buffer@.subrange(pos0, pos0 + 12);
            assert(s.subrange(0, 8) =~= buffer@.subrange(pos0, pos0 + 8));
            assert(s.subrange(8, 12) =~= buffer@.subrange(pos0 + 8, pos0 + 12));
        }
        Timestamp { secs, nanos }
    }
}

} // verus!
