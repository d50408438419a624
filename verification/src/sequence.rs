//! The dynamic sequence adapter: an element count (a size value, eight
//! bytes) followed by the elements, back to back. When the element type is
//! on the fast path, every element occupies the same fixed width, so the
//! whole payload is one contiguous block whose bounds are computed once up
//! front; otherwise elements are encoded and decoded individually.

use vstd::prelude::*;

use crate::bytes::{lemma_u64_le, u64_le};
use crate::codec::{encodes_at, lemma_encoding_unique, QuickSer};

verus! {

broadcast use vstd::std_specs::vec::group_vec_axioms;

/// The concatenation of the elements' wire representations, in order.
pub open spec fn elems_wire<T: QuickSer>(s: Seq<T>) -> Seq<u8>
    decreases s.len(),
{
    if s.len() == 0 {
        Seq::empty()
    } else {
        s[0].wire() + elems_wire(s.skip(1))
    }
}

/// Appending an element appends its wire representation.
pub proof fn lemma_elems_wire_push<T: QuickSer>(s: Seq<T>, x: T)
    ensures
        elems_wire(s.push(x)) == elems_wire(s) + x.wire(),
    decreases s.len(),
{
    if s.len() == 0 {
        assert(s.push(x).skip(1) =~= Seq::<T>::empty());
        assert(elems_wire(s.push(x).skip(1)) == Seq::<u8>::empty());
        assert(s.push(x)[0] == x);
        assert(elems_wire(s.push(x)) == x.wire() + Seq::<u8>::empty());
        assert(elems_wire(s.push(x)) =~= elems_wire(s) + x.wire());
    } else {
        assert(s.push(x).skip(1) =~= s.skip(1).push(x));
        lemma_elems_wire_push(s.skip(1), x);
        assert(s.push(x)[0] == s[0]);
        assert(elems_wire(s.push(x)) == s[0].wire() + (elems_wire(s.skip(1)) + x.wire()));
        assert(elems_wire(s.push(x)) =~= elems_wire(s) + x.wire());
    }
}

/// The element block splits at any index into the blocks of the two halves.
pub proof fn lemma_elems_wire_split<T: QuickSer>(s: Seq<T>, k: int)
    requires
        0 <= k <= s.len(),
    ensures
        elems_wire(s) == elems_wire(s.take(k)) + elems_wire(s.skip(k)),
    decreases k,
{
    if k == 0 {
        assert(s.take(0) =~= Seq::<T>::empty());
        assert(s.skip(0) =~= s);
        assert(elems_wire(s) =~= elems_wire(s.take(0)) + elems_wire(s.skip(0)));
    } else {
        lemma_elems_wire_split(s.skip(1), k - 1);
        assert(s.skip(1).take(k - 1) =~= s.take(k).skip(1));
        assert(s.skip(1).skip(k - 1) =~= s.skip(k));
        assert(s.take(k)[0] == s[0]);
        assert(s.take(k).len() > 0);
        assert(elems_wire(s.take(k)) == s[0].wire() + elems_wire(s.take(k).skip(1)));
        assert(elems_wire(s) =~= elems_wire(s.take(k)) + elems_wire(s.skip(k)));
    }
}

/// For fast-path elements the block's width is the count times the fixed
/// element width.
pub proof fn lemma_elems_wire_quick_len<T: QuickSer>(s: Seq<T>)
    requires
        T::is_quick(),
    ensures
        elems_wire(s).len() == s.len() * T::quick_size(),
    decreases s.len(),
{
    if s.len() == 0 {
    } else {
        s[0].lemma_quick_wire();
        lemma_elems_wire_quick_len(s.skip(1));
        assert(T::quick_size() + (s.len() - 1) * T::quick_size() == s.len() * T::quick_size())
            by (nonlinear_arith);
    }
}

/// Prefix-freeness lifts to element blocks of equal element count: if one
/// block is a prefix of the other, the elements agree pairwise.
pub proof fn lemma_elems_prefix_free<T: QuickSer>(s1: Seq<T>, s2: Seq<T>)
    requires
        s1.len() == s2.len(),
        elems_wire(s2).len() <= usize::MAX,
        elems_wire(s1).len() <= elems_wire(s2).len(),
        elems_wire(s1) == elems_wire(s2).subrange(0, elems_wire(s1).len() as int),
    ensures
        elems_wire(s1) == elems_wire(s2),
        forall|i: int|
            0 <= i < s1.len() ==> #[trigger] s1[i].deep_view() == s2[i].deep_view(),
    decreases s1.len(),
{
    if s1.len() == 0 {
        assert(elems_wire(s1) =~= elems_wire(s2));
    } else {
        let h1 = s1[0].wire();
        let h2 = s2[0].wire();
        let w1 = elems_wire(s1);
        let w2 = elems_wire(s2);
        assert(w1 == h1 + elems_wire(s1.skip(1)));
        assert(w2 == h2 + elems_wire(s2.skip(1)));
        assert forall|i: int| 0 <= i < w1.len() implies w1[i] == w2[i] by {
            assert(w1[i] == w2.subrange(0, w1.len() as int)[i]);
        }
        if h1.len() <= h2.len() {
            assert(h1 =~= h2.subrange(0, h1.len() as int)) by {
                assert(forall|i: int| 0 <= i < h1.len() ==> #[trigger] h1[i] == w1[i]);
                assert(forall|i: int| 0 <= i < h2.len() ==> #[trigger] h2[i] == w2[i]);
            }
            s1[0].lemma_prefix_free(&s2[0]);
        } else {
            assert(h2 =~= h1.subrange(0, h2.len() as int)) by {
                assert(forall|i: int| 0 <= i < h1.len() ==> #[trigger] h1[i] == w1[i]);
                assert(forall|i: int| 0 <= i < h2.len() ==> #[trigger] h2[i] == w2[i]);
            }
            s2[0].lemma_prefix_free(&s1[0]);
        }
        assert(h1 == h2);
        let r1 = elems_wire(s1.skip(1));
        let r2 = elems_wire(s2.skip(1));
        assert(r1 =~= r2.subrange(0, r1.len() as int)) by {
            assert forall|i: int| 0 <= i < r1.len() implies r1[i] == r2[i] by {
                assert(w1[h1.len() + i] == r1[i]);
                assert(w2[h2.len() + i] == r2[i]);
            }
        }
        lemma_elems_prefix_free(s1.skip(1), s2.skip(1));
        assert(elems_wire(s1) =~= elems_wire(s2));
        assert forall|i: int| 0 <= i < s1.len() implies #[trigger] s1[i].deep_view()
            == s2[i].deep_view() by {
            if i > 0 {
                assert(s1.skip(1)[i - 1] == s1[i]);
                assert(s2.skip(1)[i - 1] == s2[i]);
            }
        }
    }
}

impl<T: QuickSer> QuickSer for Vec<T> {
    open spec fn wire(&self) -> Seq<u8> {
        u64_le(self@.len() as u64) + elems_wire(self@)
    }

    open spec fn is_quick() -> bool {
        false
    }

    open spec fn quick_size() -> nat {
        0
    }

    proof fn lemma_quick_wire(&self) {
    }

    proof fn lemma_prefix_free(&self, other: &Self) {
        vstd::std_specs::vec::axiom_spec_len(self);
        vstd::std_specs::vec::axiom_spec_len(other);
        let c1 = u64_le(self@.len() as u64);
        let c2 = u64_le(other@.len() as u64);
        assert(self.wire() == c1 + elems_wire(self@));
        assert(other.wire() == c2 + elems_wire(other@));
        assert forall|i: int| 0 <= i < self.wire().len() implies self.wire()[i]
            == other.wire()[i] by {
            assert(self.wire()[i] == other.wire().subrange(0, self.wire().len() as int)[i]);
        }
        assert forall|i: int| 0 <= i < 8 implies c1[i] == c2[i] by {
            assert(self.wire()[i] == c1[i]);
            assert(other.wire()[i] == c2[i]);
        }
        assert(c1 =~= c2);
        lemma_u64_le(self@.len() as u64);
        lemma_u64_le(other@.len() as u64);
        assert(self@.len() == other@.len());
        let r1 = elems_wire(self@);
        let r2 = elems_wire(other@);
        assert(r1 =~= r2.subrange(0, r1.len() as int)) by {
            assert forall|i: int| 0 <= i < r1.len() implies r1[i] == r2[i] by {
                assert(self.wire()[8 + i] == r1[i]);
                assert(other.wire()[8 + i] == r2[i]);
            }
        }
        lemma_elems_prefix_free(self@, other@);
        assert(self.wire() =~= other.wire());
        assert(self.deep_view() =~= other.deep_view());
    }

    fn quick() -> (b: bool) {
        false
    }

    fn quick_size_bytes() -> (n: usize) {
        0
    }

    fn ser(&self, buffer: &mut Vec<u8>) {
        let n = self.len();
        n.ser(buffer);
        let ghost mid = buffer@;
        if T::quick() {
            // Fast-path elements: the payload is one contiguous block of
            // fixed-width images, so its full width is known now; grow the
            // buffer once before emitting it.
            if let Some(total) = n.checked_mul(T::quick_size_bytes()) {
                buffer.reserve(total);
            }
            let mut i: usize = 0;
            while i < n
                invariant
                    i <= n,
                    n == self@.len(),
                    buffer@ == mid + elems_wire(self@.take(i as int)),
                decreases n - i,
            {
                let e = &self[i];
                e.ser(buffer);
                proof {
                    assert(self@.take(i + 1 as int) =~= self@.take(i as int).push(self@[i as int]));
                    lemma_elems_wire_push(self@.take(i as int), self@[i as int]);
                }
                i = i + 1;
            }
        } else {
            let mut i: usize = 0;
            while i < n
                invariant
                    i <= n,
                    n == self@.len(),
                    buffer@ == mid + elems_wire(self@.take(i as int)),
                decreases n - i,
            {
                let e = &self[i];
                e.ser(buffer);
                proof {
                    assert(self@.take(i + 1 as int) =~= self@.take(i as int).push(self@[i as int]));
                    lemma_elems_wire_push(self@.take(i as int), self@[i as int]);
                }
                i = i + 1;
            }
        }
        proof {
            assert(self@.take(n as int) =~= self@);
            assert(buffer@ =~= old(buffer)@ + self.wire());
        }
    }

    fn de_ser(progress: &mut usize, buffer: &[u8]) -> (r: Self) {
        let ghost pos0 = *progress as int;
        let ghost w = choose|w: Vec<T>|
            {
                &&& pos0 + w.wire().len() <= buffer@.len()
                &&& buffer@.subrange(pos0, pos0 + w.wire().len() as int) == w.wire()
            };
        proof {
            // the first eight bytes are the count's image
            vstd::std_specs::vec::axiom_spec_len(&w);
            vstd::slice::axiom_spec_len(buffer);
            let c: usize = w@.len() as usize;
            assert(c as u64 == w@.len() as u64);
            assert(w.wire() == u64_le(w@.len() as u64) + elems_wire(w@));
            assert(buffer@.subrange(pos0, pos0 + 8) =~= buffer@.subrange(
                pos0,
                pos0 + w.wire().len() as int,
            ).subrange(0, 8));
            assert(w.wire().subrange(0, 8) =~= u64_le(w@.len() as u64));
            assert(buffer@.subrange(pos0, pos0 + 8) == u64_le(c as u64));
            assert(c.wire() == u64_le(c as u64));
            assert(pos0 + c.wire().len() <= buffer@.len());
            assert(buffer@.subrange(pos0, pos0 + c.wire().len() as int) == c.wire());
        }
        let n = usize::de_ser(progress, buffer);
        proof {
            lemma_u64_le(n as u64);
            lemma_u64_le(w@.len() as u64);
            assert(buffer@.subrange(pos0, pos0 + 8) =~= u64_le(n as u64));
            assert(n as u64 == w@.len() as u64);
            assert(n == w@.len());
        }
        if T::quick() {
            // Fast-path elements: one bounds computation covers the whole
            // contiguous block before any element is read.
            let size1 = T::quick_size_bytes();
            proof {
                vstd::slice::axiom_spec_len(buffer);
                lemma_elems_wire_quick_len(w@);
                assert(elems_wire(w@).len() <= w.wire().len());
                if n > 0 {
                    assert(T::quick_size() <= n * T::quick_size()) by (nonlinear_arith)
                        requires
                            n >= 1,
                    ;
                    assert(T::quick_size() <= usize::MAX);
                    assert(size1 == T::quick_size());
                } else {
                    assert(elems_wire(w@).len() == 0);
                }
                assert(n * size1 == elems_wire(w@).len());
            }
            let total = n * size1;
            let block_end = *progress + total;
            assert(block_end <= buffer.len());
        }
        let mut result: Vec<T> = Vec::with_capacity(n);
        let mut i: usize = 0;
        while i < n
            invariant
                i <= n,
                n == w@.len(),
                0 <= pos0,
                pos0 + w.wire().len() <= buffer@.len(),
                buffer@.subrange(pos0, pos0 + w.wire().len() as int) == w.wire(),
                result@.len() == i,
                elems_wire(result@) == elems_wire(w@.take(i as int)),
                *progress == pos0 + 8 + elems_wire(w@.take(i as int)).len(),
            decreases n - i,
        {
            let ghost pos_i = pos0 + 8 + elems_wire(w@.take(i as int)).len() as int;
            let ghost wi = w@[i as int];
            proof {
                lemma_elems_wire_split(w@, i as int);
                assert(w.wire() == u64_le(w@.len() as u64) + elems_wire(w@));
                assert(elems_wire(w@) == elems_wire(w@.take(i as int)) + elems_wire(
                    w@.skip(i as int),
                ));
                assert(w@.skip(i as int)[0] == wi);
                assert(w@.skip(i as int).skip(1) =~= w@.skip(i as int + 1));
                assert(elems_wire(w@.skip(i as int)) == wi.wire() + elems_wire(
                    w@.skip(i as int + 1),
                ));
                let off = 8 + elems_wire(w@.take(i as int)).len() as int;
                let elen = wi.wire().len() as int;
                assert(pos_i + elen <= pos0 + w.wire().len());
                assert(buffer@.subrange(pos_i, pos_i + elen) =~= wi.wire()) by {
                    let cimg = u64_le(w@.len() as u64);
                    let front = elems_wire(w@.take(i as int));
                    let back = elems_wire(w@.skip(i as int));
                    let rest = elems_wire(w@.skip(i as int + 1));
                    assert forall|k: int| 0 <= k < elen implies buffer@[pos_i + k]
                        == wi.wire()[k] by {
                        assert(off + k < w.wire().len());
                        let wbytes = buffer@.subrange(pos0, pos0 + w.wire().len() as int);
                        assert(wbytes[off + k] == w.wire()[off + k]);
                        assert(wbytes[off + k] == buffer@[pos0 + off + k]);
                        assert(w.wire()[off + k] == (cimg + elems_wire(w@))[off + k]);
                        assert((cimg + elems_wire(w@))[off + k] == elems_wire(w@)[off - 8 + k]);
                        assert(elems_wire(w@)[off - 8 + k] == (front + back)[off - 8 + k]);
                        assert((front + back)[off - 8 + k] == back[k]);
                        assert(back[k] == (wi.wire() + rest)[k]);
                        assert((wi.wire() + rest)[k] == wi.wire()[k]);
                    }
                }
            }
            let ghost before = result@;
            let t = T::de_ser(progress, buffer);
            result.push(t);
            proof {
                vstd::slice::axiom_spec_len(buffer);
                assert(encodes_at(buffer@, pos_i, t));
                assert(encodes_at(buffer@, pos_i, wi));
                lemma_encoding_unique(buffer@, pos_i, t, wi);
                lemma_elems_wire_push(before, t);
                assert(w@.take(i + 1 as int) =~= w@.take(i as int).push(wi));
                lemma_elems_wire_push(w@.take(i as int), wi);
                assert(elems_wire(result@) == elems_wire(w@.take(i + 1 as int)));
            }
            i = i + 1;
        }
        proof {
            assert(w@.take(n as int) =~= w@);
            assert(result@.len() == w@.len());
            assert(result.wire() =~= w.wire());
        }
        result
    }
}

} // verus!
