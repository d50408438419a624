//! The optional-value adapter: one presence byte (0 absent, 1 present),
//! then the payload if present. The presence byte doubles as a two-case
//! variant tag, so this adapter is also the smallest sum-type encoding.

use vstd::prelude::*;

use crate::codec::QuickSer;

verus! {

impl<T: QuickSer> QuickSer for Option<T> {
    open spec fn wire(&self) -> Seq<u8> {
        match self {
            None => seq![0u8],
            Some(t) => seq![1u8] + t.wire(),
        }
    }

    open spec fn is_quick() -> bool {
        false
    }

    open spec fn quick_size() -> nat {
        0
    }

    proof fn lemma_quick_wire(&self) {
    }

    proof fn lemma_prefix_free(&self, other: &Self) {
        assert(self.wire()[0] == other.wire()[0]);
        match (self, other) {
            (None, None) => {
                assert(self.wire() =~= other.wire());
            },
            (Some(a), Some(b)) => {
                let n = a.wire().len() as int;
                assert forall|i: int| 0 <= i < n implies a.wire()[i] == b.wire()[i] by {
                    assert(self.wire()[i + 1] == a.wire()[i]);
                    assert(other.wire()[i + 1] == b.wire()[i]);
                    assert(self.wire()[i + 1] == other.wire().subrange(
                        0,
                        self.wire().len() as int,
                    )[i + 1]);
                }
                assert(a.wire() =~= b.wire().subrange(0, n));
                a.lemma_prefix_free(b);
                assert(self.wire() =~= other.wire());
            },
            (None, Some(b)) => {
                assert(false);
            },
            (Some(a), None) => {
                assert(false);
            },
        }
    }

    fn quick() -> (b: bool) {
        false
    }

    fn quick_size_bytes() -> (n: usize) {
        0
    }

    fn ser(&self, buffer: &mut Vec<u8>) {
        match self {
            Some(t) => {
                buffer.push(1);
                t.ser(buffer);
                proof {
                    assert(buffer@ =~= old(buffer)@ + self.wire());
                }
            },
            None => {
                buffer.push(0);
                proof {
                    assert(buffer@ =~= old(buffer)@ + self.wire());
                }
            },
        }
    }

    fn de_ser(progress: &mut usize, buffer: &[u8]) -> (r: Self) {
        let ghost pos0 = *progress as int;
        let ghost w = choose|w: Option<T>|
            {
                &&& pos0 + w.wire().len() <= buffer@.len()
                &&& buffer@.subrange(pos0, pos0 + w.wire().len() as int) == w.wire()
            };
        proof {
            assert(w.wire().len() >= 1) by {
                match w {
                    None => {},
                    Some(_) => {},
                }
            }
            assert(buffer@.subrange(pos0, pos0 + w.wire().len() as int)[0] == w.wire()[0]);
            assert(buffer@[pos0] == w.wire()[0]);
        }
        let tag = buffer[*progress];
        *progress = *progress + 1;
        if tag == 1 {
            proof {
                assert(w matches Some(_));
                let wt = w->Some_0;
                assert forall|i: int| 0 <= i < wt.wire().len() implies buffer@.subrange(
                    pos0 + 1,
                    pos0 + 1 + wt.wire().len() as int,
                )[i] == wt.wire()[i] by {
                    assert(w.wire()[i + 1] == wt.wire()[i]);
                    assert(buffer@.subrange(pos0, pos0 + w.wire().len() as int)[i + 1]
                        == w.wire()[i + 1]);
                    assert(buffer@[pos0 + 1 + i] == w.wire()[i + 1]);
                }
                assert(buffer@.subrange(pos0 + 1, pos0 + 1 + wt.wire().len() as int)
                    =~= wt.wire());
            }
            let t = T::de_ser(progress, buffer);
            let r = Some(t);
            proof {
                assert(buffer@.subrange(pos0, pos0 + r.wire().len() as int) =~= r.wire());
            }
            r
        } else {
            proof {
                assert(w matches None);
                assert(tag == 0);
                let r: Option<T> = None;
                assert(buffer@.subrange(pos0, pos0 + 1) =~= r.wire());
            }
            None
        }
    }
}

} // verus!
