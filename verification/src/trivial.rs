//! The fast-path tier: types whose wire representation is a fixed-width
//! byte image, copied out in one block with no per-field dispatch.
//!
//! A type opts in by implementing [`RealQuickSer`]: it names its image size,
//! its byte image, and the reading-back function, and proves that reading
//! the image recovers the value. The blanket impl below then supplies the
//! whole [`QuickSer`] contract, with `is_quick()` set.

use vstd::prelude::*;

use crate::codec::{encodes_at, QuickSer};

verus! {

/// A type whose raw byte image is itself a complete, valid wire
/// representation: fixed size, every image readable back, and no ownership
/// semantics beyond a plain copy of the bytes.
pub trait RealQuickSer: Sized + DeepView {
    /// The fixed width of the byte image.
    spec fn size() -> nat;

    /// The byte image of this value.
    spec fn image(&self) -> Seq<u8>;

    /// The value a `size()`-byte image holds. Total: a trivial type reads
    /// every image back without validation.
    spec fn from_image(bytes: Seq<u8>) -> Self;

    /// The image is `size()` bytes wide and reading it back recovers the
    /// value exactly.
    proof fn lemma_image(&self)
        ensures
            self.image().len() == Self::size(),
            Self::from_image(self.image()) == *self,
    ;

    /// Runtime access to `size()`, saturating at the platform's limit.
    fn size_bytes() -> (n: usize)
        ensures
            Self::size() <= usize::MAX ==> n == Self::size(),
            Self::size() > usize::MAX ==> n == usize::MAX,
    ;

    /// Appends the byte image to `buffer`.
    fn write_image(&self, buffer: &mut Vec<u8>)
        ensures
            final(buffer)@ == old(buffer)@ + self.image(),
    ;

    /// Reads a `size()`-byte image starting at `*progress` and advances
    /// `*progress` past it.
    fn read_image(progress: &mut usize, buffer: &[u8]) -> (r: Self)
        requires
            *old(progress) + Self::size() <= buffer@.len(),
        ensures
            r == Self::from_image(
                buffer@.subrange(*old(progress) as int, *old(progress) + Self::size() as int),
            ),
            *final(progress) == *old(progress) + Self::size(),
    ;
}

/// Every fast-path type is serializable: its wire representation is its
/// byte image. Because the image has a fixed width and reads back exactly,
/// the codec laws hold with no per-type proof beyond `lemma_image`.
impl<T: RealQuickSer> QuickSer for T {
    open spec fn wire(&self) -> Seq<u8> {
        self.image()
    }

    open spec fn is_quick() -> bool {
        true
    }

    open spec fn quick_size() -> nat {
        Self::size()
    }

    proof fn lemma_quick_wire(&self) {
        self.lemma_image();
    }

    proof fn lemma_prefix_free(&self, other: &Self) {
        self.lemma_image();
        other.lemma_image();
        assert(self.image() =~= other.image());
    }

    fn quick() -> (b: bool) {
        true
    }

    fn quick_size_bytes() -> (n: usize) {
        Self::size_bytes()
    }

    fn ser(&self, buffer: &mut Vec<u8>) {
        self.write_image(buffer);
    }

    fn de_ser(progress: &mut usize, buffer: &[u8]) -> (r: Self) {
        let ghost pos0 = *progress as int;
        proof {
            let w = choose|w: T|
                {
                    &&& pos0 + w.image().len() <= buffer@.len()
                    &&& buffer@.subrange(pos0, pos0 + w.image().len() as int) == w.image()
                };
            w.lemma_image();
        }
        let r = Self::read_image(progress, buffer);
        proof {
            let w = choose|w: T|
                {
                    &&& pos0 + w.image().len() <= buffer@.len()
                    &&& buffer@.subrange(pos0, pos0 + w.image().len() as int) == w.image()
                };
            w.lemma_image();
            assert(w.image() == buffer@.subrange(pos0, pos0 + Self::size() as int));
            assert(r == w);
            r.lemma_image();
        }
        r
    }
}

/// A byte's image is the byte itself.
impl RealQuickSer for u8 {
    open spec fn size() -> nat {
        1
    }

    open spec fn image(&self) -> Seq<u8> {
        seq![*self]
    }

    open spec fn from_image(bytes: Seq<u8>) -> Self {
        bytes[0]
    }

    proof fn lemma_image(&self) {
    }

    fn size_bytes() -> (n: usize) {
        1
    }

    fn write_image(&self, buffer: &mut Vec<u8>) {
        buffer.push(*self);
        proof {
            assert(buffer@ =~= old(buffer)@ + self.image());
        }
    }

    fn read_image(progress: &mut usize, buffer: &[u8]) -> (r: Self) {
        let ghost pos0 = *progress as int;
        let b = buffer[*progress];
        *progress = *progress + 1;
        proof {
            assert(b == Self::from_image(buffer@.subrange(pos0, pos0 + 1)));
        }
        b
    }
}

} // verus!
