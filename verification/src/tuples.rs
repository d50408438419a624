//! Fixed tuples of fast-path types are themselves fast-path: their image is
//! the concatenation of the components' images, in declaration order, with
//! no tags or lengths. This is the trivial-classification transitivity for
//! product shapes.

use vstd::prelude::*;

use crate::trivial::RealQuickSer;

verus! {

impl<A: RealQuickSer, B: RealQuickSer> RealQuickSer for (A, B) {
    open spec fn size() -> nat {
        A::size() + B::size()
    }

    open spec fn image(&self) -> Seq<u8> {
        self.0.image() + self.1.image()
    }

    open spec fn from_image(bytes: Seq<u8>) -> Self {
        (
            A::from_image(bytes.subrange(0, A::size() as int)),
            B::from_image(bytes.subrange(A::size() as int, A::size() + B::size() as int)),
        )
    }

    proof fn lemma_image(&self) {
        self.0.lemma_image();
        self.1.lemma_image();
        assert(self.image().subrange(0, A::size() as int) =~= self.0.image());
        assert(self.image().subrange(A::size() as int, A::size() + B::size() as int)
            =~= self.1.image());
    }

    fn size_bytes() -> (n: usize) {
        A::size_bytes().saturating_add(B::size_bytes())
    }

    fn write_image(&self, buffer: &mut Vec<u8>) {
        self.0.write_image(buffer);
        self.1.write_image(buffer);
        proof {
            assert(buffer@ =~= old(buffer)@ + self.image());
        }
    }

    fn read_image(progress: &mut usize, buffer: &[u8]) -> (r: Self) {
        let ghost pos0 = *progress as int;
        let a = A::read_image(progress, buffer);
        let b = B::read_image(progress, buffer);
        proof {
            let s = buffer@.subrange(pos0, pos0 + Self::size() as int);
            assert(s.subrange(0, A::size() as int) =~= buffer@.subrange(
                pos0,
                pos0 + A::size() as int,
            ));
            assert(s.subrange(A::size() as int, A::size() + B::size() as int) =~= buffer@.subrange(
                pos0 + A::size() as int,
                pos0 + Self::size() as int,
            ));
        }
        (a, b)
    }
}

impl<A: RealQuickSer, B: RealQuickSer, C: RealQuickSer> RealQuickSer for (A, B, C) {
    open spec fn size() -> nat {
        A::size() + B::size() + C::size()
    }

    open spec fn image(&self) -> Seq<u8> {
        self.0.image() + self.1.image() + self.2.image()
    }

    open spec fn from_image(bytes: Seq<u8>) -> Self {
        (
            A::from_image(bytes.subrange(0, A::size() as int)),
            B::from_image(bytes.subrange(A::size() as int, A::size() + B::size() as int)),
            C::from_image(
                bytes.subrange(
                    A::size() + B::size() as int,
                    A::size() + B::size() + C::size() as int,
                ),
            ),
        )
    }

    proof fn lemma_image(&self) {
        self.0.lemma_image();
        self.1.lemma_image();
        self.2.lemma_image();
        assert(self.image().subrange(0, A::size() as int) =~= self.0.image());
        assert(self.image().subrange(A::size() as int, A::size() + B::size() as int)
            =~= self.1.image());
        assert(self.image().subrange(
            A::size() + B::size() as int,
            A::size() + B::size() + C::size() as int,
        ) =~= self.2.image());
    }

    fn size_bytes() -> (n: usize) {
        A::size_bytes().saturating_add(B::size_bytes()).saturating_add(C::size_bytes())
    }

    fn write_image(&self, buffer: &mut Vec<u8>) {
        self.0.write_image(buffer);
        self.1.write_image(buffer);
        self.2.write_image(buffer);
        proof {
            assert(buffer@ =~= old(buffer)@ + self.image());
        }
    }

    fn read_image(progress: &mut usize, buffer: &[u8]) -> (r: Self) {
        let ghost pos0 = *progress as int;
        let a = A::read_image(progress, buffer);
        let b = B::read_image(progress, buffer);
        let c = C::read_image(progress, buffer);
        proof {
            let s = buffer@.subrange(pos0, pos0 + Self::size() as int);
            assert(s.subrange(0, A::size() as int) =~= buffer@.subrange(
                pos0,
                pos0 + A::size() as int,
            ));
            assert(s.subrange(A::size() as int, A::size() + B::size() as int) =~= buffer@.subrange(
                pos0 + A::size() as int,
                pos0 + A::size() + B::size() as int,
            ));
            assert(s.subrange(
                A::size() + B::size() as int,
                A::size() + B::size() + C::size() as int,
            ) =~= buffer@.subrange(pos0 + A::size() + B::size() as int, pos0 + Self::size() as int));
        }
        (a, b, c)
    }
}

impl<A: RealQuickSer, B: RealQuickSer, C: RealQuickSer, D: RealQuickSer> RealQuickSer for (
    A,
    B,
    C,
    D,
) {
    open spec fn size() -> nat {
        A::size() + B::size() + C::size() + D::size()
    }

    open spec fn image(&self) -> Seq<u8> {
        self.0.image() + self.1.image() + self.2.image() + self.3.image()
    }

    open spec fn from_image(bytes: Seq<u8>) -> Self {
        (
            A::from_image(bytes.subrange(0, A::size() as int)),
            B::from_image(bytes.subrange(A::size() as int, A::size() + B::size() as int)),
            C::from_image(
                bytes.subrange(
                    A::size() + B::size() as int,
                    A::size() + B::size() + C::size() as int,
                ),
            ),
            D::from_image(
                bytes.subrange(
                    A::size() + B::size() + C::size() as int,
                    A::size() + B::size() + C::size() + D::size() as int,
                ),
            ),
        )
    }

    proof fn lemma_image(&self) {
        self.0.lemma_image();
        self.1.lemma_image();
        self.2.lemma_image();
        self.3.lemma_image();
        assert(self.image().subrange(0, A::size() as int) =~= self.0.image());
        assert(self.image().subrange(A::size() as int, A::size() + B::size() as int)
            =~= self.1.image());
        assert(self.image().subrange(
            A::size() + B::size() as int,
            A::size() + B::size() + C::size() as int,
        ) =~= self.2.image());
        assert(self.image().subrange(
            A::size() + B::size() + C::size() as int,
            A::size() + B::size() + C::size() + D::size() as int,
        ) =~= self.3.image());
    }

    fn size_bytes() -> (n: usize) {
        A::size_bytes().saturating_add(B::size_bytes()).saturating_add(
            C::size_bytes(),
        ).saturating_add(D::size_bytes())
    }

    fn write_image(&self, buffer: &mut Vec<u8>) {
        self.0.write_image(buffer);
        self.1.write_image(buffer);
        self.2.write_image(buffer);
        self.3.write_image(buffer);
        proof {
            assert(buffer@ =~= old(buffer)@ + self.image());
        }
    }

    fn read_image(progress: &mut usize, buffer: &[u8]) -> (r: Self) {
        let ghost pos0 = *progress as int;
        let a = A::read_image(progress, buffer);
        let b = B::read_image(progress, buffer);
        let c = C::read_image(progress, buffer);
        let d = D::read_image(progress, buffer);
        proof {
            let s = buffer@.subrange(pos0, pos0 + Self::size() as int);
            assert(s.subrange(0, A::size() as int) =~= buffer@.subrange(
                pos0,
                pos0 + A::size() as int,
            ));
            assert(s.subrange(A::size() as int, A::size() + B::size() as int) =~= buffer@.subrange(
                pos0 + A::size() as int,
                pos0 + A::size() + B::size() as int,
            ));
            assert(s.subrange(
                A::size() + B::size() as int,
                A::size() + B::size() + C::size() as int,
            ) =~= buffer@.subrange(
                pos0 + A::size() + B::size() as int,
                pos0 + A::size() + B::size() + C::size() as int,
            ));
            assert(s.subrange(
                A::size() + B::size() + C::size() as int,
                A::size() + B::size() + C::size() + D::size() as int,
            ) =~= buffer@.subrange(
                pos0 + A::size() + B::size() + C::size() as int,
                pos0 + Self::size() as int,
            ));
        }
        (a, b, c, d)
    }
}

} // verus!

