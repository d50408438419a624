//! The associative-map adapter. A map travels as an entry count (a size
//! value) followed by each key/value pair; a pair is a two-field record,
//! the key's encoding then the value's, in declaration order with no tags
//! or delimiters — the product-type rule of the recursive tier.
//!
//! The map keeps its entries in insertion order in a plain vector, so its
//! encoding is deterministic; hashed containers, whose iteration order
//! varies per process, convert to and from this type at the boundary.

use vstd::prelude::*;

use crate::bytes::u64_le;
use crate::codec::{encodes_at, lemma_encoding_unique, QuickSer};
use crate::sequence::elems_wire;

verus! {

/// One key/value pair: a two-field record encoded field by field.
#[derive(Clone, Debug, PartialEq, Eq)]
pub struct Entry<K, W> {
    pub key: K,
    pub val: W,
}

impl<K: QuickSer, W: QuickSer> DeepView for Entry<K, W> {
    type V = (<K as DeepView>::V, <W as DeepView>::V);

    open spec fn deep_view(&self) -> Self::V {
        (self.key.deep_view(), self.val.deep_view())
    }
}

impl<K: QuickSer, W: QuickSer> QuickSer for Entry<K, W> {
    open spec fn wire(&self) -> Seq<u8> {
        self.key.wire() + self.val.wire()
    }

    open spec fn is_quick() -> bool {
        K::is_quick() && W::is_quick()
    }

    open spec fn quick_size() -> nat {
        K::quick_size() + W::quick_size()
    }

    proof fn lemma_quick_wire(&self) {
        if Self::is_quick() {
            self.key.lemma_quick_wire();
            self.val.lemma_quick_wire();
        }
    }

    proof fn lemma_prefix_free(&self, other: &Self) {
        let k1 = self.key.wire();
        let k2 = other.key.wire();
        assert forall|i: int| 0 <= i < self.wire().len() implies self.wire()[i]
            == other.wire()[i] by {
            assert(self.wire()[i] == other.wire().subrange(0, self.wire().len() as int)[i]);
        }
        if k1.len() <= k2.len() {
            assert(k1 =~= k2.subrange(0, k1.len() as int)) by {
                assert(forall|i: int| 0 <= i < k1.len() ==> #[trigger] k1[i] == self.wire()[i]);
                assert(forall|i: int| 0 <= i < k2.len() ==> #[trigger] k2[i] == other.wire()[i]);
            }
            self.key.lemma_prefix_free(&other.key);
        } else {
            assert(k2 =~= k1.subrange(0, k2.len() as int)) by {
                assert(forall|i: int| 0 <= i < k1.len() ==> #[trigger] k1[i] == self.wire()[i]);
                assert(forall|i: int| 0 <= i < k2.len() ==> #[trigger] k2[i] == other.wire()[i]);
            }
            other.key.lemma_prefix_free(&self.key);
        }
        assert(k1 == k2);
        let v1 = self.val.wire();
        let v2 = other.val.wire();
        assert(v1 =~= v2.subrange(0, v1.len() as int)) by {
            assert forall|i: int| 0 <= i < v1.len() implies v1[i] == v2[i] by {
                assert(self.wire()[k1.len() + i] == v1[i]);
                assert(other.wire()[k2.len() + i] == v2[i]);
            }
        }
        self.val.lemma_prefix_free(&other.val);
        assert(self.wire() =~= other.wire());
    }

    fn quick() -> (b: bool) {
        K::quick() && W::quick()
    }

    fn quick_size_bytes() -> (n: usize) {
        K::quick_size_bytes().saturating_add(W::quick_size_bytes())
    }

    fn ser(&self, buffer: &mut Vec<u8>) {
        self.key.ser(buffer);
        self.val.ser(buffer);
        proof {
            assert(buffer@ =~= old(buffer)@ + self.wire());
        }
    }

    fn de_ser(progress: &mut usize, buffer: &[u8]) -> (r: Self) {
        let ghost pos0 = *progress as int;
        let ghost w = choose|w: Entry<K, W>|
            {
                &&& pos0 + w.wire().len() <= buffer@.len()
                &&& buffer@.subrange(pos0, pos0 + w.wire().len() as int) == w.wire()
            };
        proof {
            vstd::slice::axiom_spec_len(buffer);
            assert(w.wire() == w.key.wire() + w.val.wire());
            let klen = w.key.wire().len() as int;
            assert(buffer@.subrange(pos0, pos0 + klen) =~= buffer@.subrange(
                pos0,
                pos0 + w.wire().len() as int,
            ).subrange(0, klen));
            assert(w.wire().subrange(0, klen) =~= w.key.wire());
        }
        let key = K::de_ser(progress, buffer);
        proof {
            assert(encodes_at(buffer@, pos0, key));
            assert(encodes_at(buffer@, pos0, w.key));
            lemma_encoding_unique(buffer@, pos0, key, w.key);
            let klen = w.key.wire().len() as int;
            let vlen = w.val.wire().len() as int;
            assert(buffer@.subrange(pos0 + klen, pos0 + klen + vlen) =~= buffer@.subrange(
                pos0,
                pos0 + w.wire().len() as int,
            ).subrange(klen, klen + vlen));
            assert(w.wire().subrange(klen, klen + vlen) =~= w.val.wire());
        }
        let val = W::de_ser(progress, buffer);
        proof {
            let klen = w.key.wire().len() as int;
            assert(encodes_at(buffer@, pos0 + klen, val));
            assert(encodes_at(buffer@, pos0 + klen, w.val));
            lemma_encoding_unique(buffer@, pos0 + klen, val, w.val);
        }
        let r = Entry { key, val };
        proof {
            assert(r.wire() =~= w.wire());
        }
        r
    }
}

/// An associative map as the codec sees it: key/value entries in insertion
/// order. Its encoding is the dynamic-sequence encoding of its entries, so
/// logically equal maps built in the same order encode identically.
#[derive(Clone, Debug, PartialEq, Eq)]
pub struct QuickMap<K, W> {
    pub entries: Vec<Entry<K, W>>,
}

impl<K: QuickSer, W: QuickSer> DeepView for QuickMap<K, W> {
    type V = Seq<(<K as DeepView>::V, <W as DeepView>::V)>;

    open spec fn deep_view(&self) -> Self::V {
        self.entries.deep_view()
    }
}

impl<K: QuickSer, W: QuickSer> QuickMap<K, W> {
    /// An empty map.
    pub fn new() -> (r: Self)
        ensures
            r.deep_view() == Seq::<(<K as DeepView>::V, <W as DeepView>::V)>::empty(),
    {
        let r = QuickMap { entries: Vec::new() };
        proof {
            assert(r.deep_view() =~= Seq::<(<K as DeepView>::V, <W as DeepView>::V)>::empty());
        }
        r
    }

    /// The number of entries.
    pub fn len(&self) -> (n: usize)
        ensures
            n == self.entries@.len(),
    {
        self.entries.len()
    }

    /// Adds an entry at the end. The map does not search for an equal key:
    /// keeping keys distinct is the caller's contract, as it is for the
    /// buffers this codec trusts.
    pub fn insert(&mut self, key: K, val: W)
        ensures
            final(self).entries@ == old(self).entries@.push(Entry { key, val }),
    {
        self.entries.push(Entry { key, val });
    }
}

impl<K: QuickSer, W: QuickSer> QuickSer for QuickMap<K, W> {
    open spec fn wire(&self) -> Seq<u8> {
        u64_le(self.entries@.len() as u64) + elems_wire(self.entries@)
    }

    open spec fn is_quick() -> bool {
        false
    }

    open spec fn quick_size() -> nat {
        0
    }

    proof fn lemma_quick_wire(&self) {
    }

    proof fn lemma_prefix_free(&self, other: &Self) {
        assert(self.wire() == self.entries.wire());
        assert(other.wire() == other.entries.wire());
        self.entries.lemma_prefix_free(&other.entries);
        assert(self.deep_view() == other.deep_view());
    }

    fn quick() -> (b: bool) {
        false
    }

    fn quick_size_bytes() -> (n: usize) {
        0
    }

    fn ser(&self, buffer: &mut Vec<u8>) {
        self.entries.ser(buffer);
        proof {
            assert(self.wire() == self.entries.wire());
        }
    }

    fn de_ser(progress: &mut usize, buffer: &[u8]) -> (r: Self) {
        let ghost pos0 = *progress as int;
        proof {
            let w = choose|w: QuickMap<K, W>|
                {
                    &&& pos0 + w.wire().len() <= buffer@.len()
                    &&& buffer@.subrange(pos0, pos0 + w.wire().len() as int) == w.wire()
                };
            assert(w.wire() == w.entries.wire());
            assert(pos0 + w.entries.wire().len() <= buffer@.len());
            assert(buffer@.subrange(pos0, pos0 + w.entries.wire().len() as int)
                == w.entries.wire());
        }
        let entries = Vec::<Entry<K, W>>::de_ser(progress, buffer);
        let r = QuickMap { entries };
        proof {
            assert(r.wire() == r.entries.wire());
        }
        r
    }
}

} // verus!
