//! The codec contract: every serializable type states its wire
//! representation as a mathematical byte sequence, encodes by appending
//! exactly those bytes, and decodes them back from a read position.

use vstd::prelude::*;

verus! {

/// The capability every serializable type implements.
///
/// `wire` is the type's wire representation, a pure function of the value
/// (at the precision of [`DeepView`]); `ser` appends exactly those bytes,
/// and `de_ser` reads a value's encoding from the current read position and
/// advances the position exactly past it.
///
/// Two laws tie the operations together. `lemma_quick_wire` says that a
/// type on the fast path has a fixed-width encoding. `lemma_prefix_free`
/// says that no value's encoding is a proper prefix of another's, which
/// makes decoding unambiguous: see [`lemma_round_trip`].
pub trait QuickSer: Sized + DeepView {
    /// The bytes that encode this value.
    spec fn wire(&self) -> Seq<u8>;

    /// True when the type takes the fast path: its wire representation is
    /// its fixed-width byte image, with no per-field dispatch.
    spec fn is_quick() -> bool;

    /// The fixed encoded size of a fast-path type, in bytes.
    /// Meaningful only when `is_quick()` holds.
    spec fn quick_size() -> nat;

    /// A fast-path type encodes every value in exactly `quick_size()` bytes.
    proof fn lemma_quick_wire(&self)
        ensures
            Self::is_quick() ==> self.wire().len() == Self::quick_size(),
    ;

    /// No value's encoding is a proper prefix of another value's encoding,
    /// so the bytes at a read position determine the decoded value. The
    /// bound on the longer encoding reflects that encodings live in real
    /// buffers, whose length the platform limits; without it a size value
    /// could not be read back unambiguously from its fixed-width image.
    proof fn lemma_prefix_free(&self, other: &Self)
        requires
            other.wire().len() <= usize::MAX,
            self.wire().len() <= other.wire().len(),
            self.wire() == other.wire().subrange(0, self.wire().len() as int),
        ensures
            self.deep_view() == other.deep_view(),
            self.wire() == other.wire(),
    ;

    /// Runtime access to the compile-time `is_quick()` classification.
    fn quick() -> (b: bool)
        ensures
            b == Self::is_quick(),
    ;

    /// Runtime access to `quick_size()`, for fast-path block arithmetic,
    /// saturating at the platform's limit.
    fn quick_size_bytes() -> (n: usize)
        ensures
            Self::is_quick() && Self::quick_size() <= usize::MAX ==> n == Self::quick_size(),
            Self::is_quick() && Self::quick_size() > usize::MAX ==> n == usize::MAX,
    ;

    /// Appends this value's wire representation to `buffer`.
    fn ser(&self, buffer: &mut Vec<u8>)
        ensures
            final(buffer)@ == old(buffer)@ + self.wire(),
    ;

    /// Reads a value whose encoding starts at `*progress` and advances
    /// `*progress` exactly past the consumed bytes.
    ///
    /// The precondition is [`starts_with_encoding`], spelled out inline: a
    /// trait contract cannot apply a helper that is itself bounded by the
    /// trait being declared.
    fn de_ser(progress: &mut usize, buffer: &[u8]) -> (r: Self)
        requires
            exists|v: Self|
                {
                    &&& *old(progress) + v.wire().len() <= buffer@.len()
                    &&& buffer@.subrange(
                        *old(progress) as int,
                        *old(progress) + v.wire().len() as int,
                    ) == v.wire()
                },
        ensures
            *old(progress) + r.wire().len() <= buffer@.len(),
            buffer@.subrange(*old(progress) as int, *old(progress) + r.wire().len() as int)
                == r.wire(),
            *final(progress) == *old(progress) + r.wire().len(),
    ;
}

/// `v`'s wire representation occupies `buffer[pos..pos + v.wire().len()]`.
pub open spec fn encodes_at<T: QuickSer>(buffer: Seq<u8>, pos: int, v: T) -> bool {
    &&& 0 <= pos
    &&& pos + v.wire().len() <= buffer.len()
    &&& buffer.subrange(pos, pos + v.wire().len() as int) == v.wire()
}

/// Some value of `T` has its encoding at `pos`: the precondition of decoding.
pub open spec fn starts_with_encoding<T: QuickSer>(buffer: Seq<u8>, pos: int) -> bool {
    exists|v: T| encodes_at(buffer, pos, v)
}

/// At one read position, at most one value (up to `DeepView`) is encoded,
/// and its byte count is determined: decoding is unambiguous.
pub proof fn lemma_encoding_unique<T: QuickSer>(buffer: Seq<u8>, pos: int, v1: T, v2: T)
    requires
        buffer.len() <= usize::MAX,
        encodes_at(buffer, pos, v1),
        encodes_at(buffer, pos, v2),
    ensures
        v1.deep_view() == v2.deep_view(),
        v1.wire() == v2.wire(),
{
    if v1.wire().len() <= v2.wire().len() {
        assert(v1.wire() == v2.wire().subrange(0, v1.wire().len() as int)) by {
            assert(v1.wire() == buffer.subrange(pos, pos + v1.wire().len() as int));
            assert(v2.wire() == buffer.subrange(pos, pos + v2.wire().len() as int));
            assert(v2.wire().subrange(0, v1.wire().len() as int) =~= buffer.subrange(
                pos,
                pos + v1.wire().len() as int,
            ));
        }
        v1.lemma_prefix_free(&v2);
    } else {
        assert(v2.wire() == v1.wire().subrange(0, v2.wire().len() as int)) by {
            assert(v2.wire() == buffer.subrange(pos, pos + v2.wire().len() as int));
            assert(v1.wire() == buffer.subrange(pos, pos + v1.wire().len() as int));
            assert(v1.wire().subrange(0, v2.wire().len() as int) =~= buffer.subrange(
                pos,
                pos + v2.wire().len() as int,
            ));
        }
        v2.lemma_prefix_free(&v1);
    }
}

/// Round-trip law: decoding the bytes just produced by encoding `v`, from a
/// read position at their start, yields a value equal to `v` (at `DeepView`
/// precision) and consumes exactly those bytes, whatever precedes or
/// follows them in the buffer. `r` stands for any value whose encoding the
/// decoder finds there, which is what `QuickSer::de_ser` returns.
pub proof fn lemma_round_trip<T: QuickSer>(prefix: Seq<u8>, suffix: Seq<u8>, v: T, r: T)
    requires
        prefix.len() + v.wire().len() + suffix.len() <= usize::MAX,
        encodes_at(prefix + v.wire() + suffix, prefix.len() as int, r),
    ensures
        r.deep_view() == v.deep_view(),
        r.wire().len() == v.wire().len(),
{
    let buffer = prefix + v.wire() + suffix;
    assert(encodes_at(buffer, prefix.len() as int, v)) by {
        assert(buffer.subrange(
            prefix.len() as int,
            prefix.len() + v.wire().len() as int,
        ) =~= v.wire());
    }
    lemma_encoding_unique(buffer, prefix.len() as int, v, r);
}

/// Determinism: the bytes that `ser` appends are `wire(v)`, a function of
/// the encoded value alone, so encoding equal values into two buffers
/// appends identical byte sequences regardless of the buffers' contents.
pub proof fn lemma_deterministic<T: QuickSer>(v1: T, v2: T, appended1: Seq<u8>, appended2: Seq<u8>)
    requires
        v1 == v2,
        appended1 == v1.wire(),
        appended2 == v2.wire(),
    ensures
        appended1 == appended2,
{
}

} // verus!
