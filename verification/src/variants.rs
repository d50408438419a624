//! The sum-type encoding rule, shown on a reference type. A sum value
//! travels as one variant-tag byte — the 0-based index of the chosen case
//! in declaration order — followed by that case's fields, back to back,
//! under the product rule. A tag naming no declared case is rejected
//! before decoding starts: this codec reads only buffers it produced.
//!
//! [`Choice`] has a field-less case, a one-field case and a two-field
//! case; an implementation written (or generated) for any other sum type
//! follows the same shape, with one match arm per case.

use vstd::prelude::*;

use crate::codec::{encodes_at, lemma_encoding_unique, QuickSer};

verus! {

/// A three-case sum type covering the shapes a case can take.
#[derive(Clone, Copy, Debug, PartialEq, Eq, Structural)]
pub enum Choice {
    A,
    B(u8),
    C { x: u8, y: u8 },
}

impl DeepView for Choice {
    type V = Choice;

    open spec fn deep_view(&self) -> Choice {
        *self
    }
}

impl QuickSer for Choice {
    open spec fn wire(&self) -> Seq<u8> {
        match self {
            Choice::A => seq![0u8],
            Choice::B(b) => seq![1u8, *b],
            Choice::C { x, y } => seq![2u8, *x, *y],
        }
    }

    open spec fn is_quick() -> bool {
        false
    }

    open spec fn quick_size() -> nat {
        0
    }

    proof fn lemma_quick_wire(&self) {
    }

    proof fn lemma_prefix_free(&self, other: &Self) {
        let pre = other.wire().subrange(0, self.wire().len() as int);
        assert(self.wire()[0] == pre[0]);
        assert(pre[0] == other.wire()[0]);
        match (self, other) {
            (Choice::A, Choice::A) => {
                assert(self.wire() =~= other.wire());
            },
            (Choice::B(a), Choice::B(b)) => {
                assert(self.wire()[1] == pre[1]);
                assert(pre[1] == other.wire()[1]);
                assert(a == b);
                assert(self.wire() =~= other.wire());
            },
            (Choice::C { x: x1, y: y1 }, Choice::C { x: x2, y: y2 }) => {
                assert(self.wire()[1] == pre[1]);
                assert(pre[1] == other.wire()[1]);
                assert(self.wire()[2] == pre[2]);
                assert(pre[2] == other.wire()[2]);
                assert(x1 == x2 && y1 == y2);
                assert(self.wire() =~= other.wire());
            },
            _ => {
                assert(false);
            },
        }
    }

    fn quick() -> (b: bool) {
        false
    }

    fn quick_size_bytes() -> (n: usize) {
        0
    }

    fn ser(&self, buffer: &mut Vec<u8>) {
        match self {
            Choice::A => {
                buffer.push(0);
            },
            Choice::B(b) => {
                buffer.push(1);
                buffer.push(*b);
            },
            Choice::C { x, y } => {
                buffer.push(2);
                buffer.push(*x);
                buffer.push(*y);
            },
        }
        proof {
            assert(buffer@ =~= old(buffer)@ + self.wire());
        }
    }

    fn de_ser(progress: &mut usize, buffer: &[u8]) -> (r: Self) {
        let ghost pos0 = *progress as int;
        let ghost w = choose|w: Choice|
            {
                &&& pos0 + w.wire().len() <= buffer@.len()
                &&& buffer@.subrange(pos0, pos0 + w.wire().len() as int) == w.wire()
            };
        proof {
            assert(buffer@.subrange(pos0, pos0 + w.wire().len() as int)[0] == w.wire()[0]);
        }
        let tag = buffer[*progress];
        *progress = *progress + 1;
        if tag == 0 {
            proof {
                assert(w matches Choice::A);
                assert(buffer@.subrange(pos0, pos0 + 1) =~= w.wire());
            }
            Choice::A
        } else if tag == 1 {
            proof {
                assert(w matches Choice::B(_));
                assert(buffer@.subrange(pos0, pos0 + 2)[1] == w.wire()[1]);
            }
            let b = buffer[*progress];
            *progress = *progress + 1;
            let r = Choice::B(b);
            proof {
                assert(buffer@[pos0 + 1] == w.wire()[1]);
                assert(buffer@.subrange(pos0, pos0 + 2) =~= r.wire());
            }
            r
        } else {
            proof {
                assert(w matches Choice::C { .. });
                assert(tag == 2);
            }
            let x = buffer[*progress];
            let y = buffer[*progress + 1];
            *progress = *progress + 2;
            let r = Choice::C { x, y };
            proof {
                assert(buffer@[pos0 + 1] == w.wire()[1]);
                assert(buffer@[pos0 + 2] == w.wire()[2]);
                assert(buffer@.subrange(pos0, pos0 + 3) =~= r.wire());
            }
            r
        }
    }
}

} // verus!
