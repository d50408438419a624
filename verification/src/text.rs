//! The text adapter: a byte length (a size value, eight bytes) followed by
//! the text's UTF-8 bytes. Decoding checks that the bytes are well-formed
//! text, which the decoding contract guarantees for any buffer this codec
//! produced.

use vstd::prelude::*;

use crate::bytes::{lemma_u64_le, u64_le};
use crate::codec::QuickSer;
use vstd::utf8::{encode_utf8, valid_utf8};

verus! {

/// Relies on str::from_utf8: for well-formed UTF-8 input it returns the
/// text whose byte encoding is exactly that input.
#[verifier::external_body]
fn bytes_to_string(v: &Vec<u8>) -> (r: String)
    requires
        valid_utf8(v@),
    ensures
        encode_utf8(r@) == v@,
{
    std::str::from_utf8(v.as_slice()).unwrap().to_string()
}

impl QuickSer for String {
    open spec fn wire(&self) -> Seq<u8> {
        u64_le(encode_utf8(self@).len() as u64) + encode_utf8(self@)
    }

    open spec fn is_quick() -> bool {
        false
    }

    open spec fn quick_size() -> nat {
        0
    }

    proof fn lemma_quick_wire(&self) {
    }

    proof fn lemma_prefix_free(&self, other: &Self) {
        let b1 = encode_utf8(self@);
        let b2 = encode_utf8(other@);
        let c1 = u64_le(b1.len() as u64);
        let c2 = u64_le(b2.len() as u64);
        assert(self.wire() == c1 + b1);
        assert(other.wire() == c2 + b2);
        assert forall|i: int| 0 <= i < self.wire().len() implies self.wire()[i]
            == other.wire()[i] by {
            assert(self.wire()[i] == other.wire().subrange(0, self.wire().len() as int)[i]);
        }
        assert forall|i: int| 0 <= i < 8 implies c1[i] == c2[i] by {
            assert(self.wire()[i] == c1[i]);
            assert(other.wire()[i] == c2[i]);
        }
        assert(c1 =~= c2);
        lemma_u64_le(b1.len() as u64);
        lemma_u64_le(b2.len() as u64);
        assert(b1.len() == b2.len());
        assert(b1 =~= b2) by {
            assert forall|i: int| 0 <= i < b1.len() implies b1[i] == b2[i] by {
                assert(self.wire()[8 + i] == b1[i]);
                assert(other.wire()[8 + i] == b2[i]);
            }
        }
        vstd::utf8::encode_utf8_decode_utf8(self@);
        vstd::utf8::encode_utf8_decode_utf8(other@);
        assert(self@ == other@);
        assert(self.wire() =~= other.wire());
    }

    fn quick() -> (b: bool) {
        false
    }

    fn quick_size_bytes() -> (n: usize) {
        0
    }

    fn ser(&self, buffer: &mut Vec<u8>) {
        let bs = self.as_str().as_bytes();
        proof {
            vstd::slice::axiom_spec_len(bs);
        }
        let n = bs.len();
        n.ser(buffer);
        buffer.extend_from_slice(bs);
        proof {
            assert(buffer@ =~= old(buffer)@ + self.wire());
        }
    }

    fn de_ser(progress: &mut usize, buffer: &[u8]) -> (r: Self) {
        let ghost pos0 = *progress as int;
        let ghost w = choose|w: String|
            {
                &&& pos0 + w.wire().len() <= buffer@.len()
                &&& buffer@.subrange(pos0, pos0 + w.wire().len() as int) == w.wire()
            };
        let ghost wb = encode_utf8(w@);
        proof {
            vstd::slice::axiom_spec_len(buffer);
            assert(w.wire() == u64_le(wb.len() as u64) + wb);
            let c: usize = wb.len() as usize;
            assert(c as u64 == wb.len() as u64);
            assert(buffer@.subrange(pos0, pos0 + 8) =~= buffer@.subrange(
                pos0,
                pos0 + w.wire().len() as int,
            ).subrange(0, 8));
            assert(w.wire().subrange(0, 8) =~= u64_le(wb.len() as u64));
            assert(buffer@.subrange(pos0, pos0 + 8) == u64_le(c as u64));
            assert(c.wire() == u64_le(c as u64));
            assert(pos0 + c.wire().len() <= buffer@.len());
            assert(buffer@.subrange(pos0, pos0 + c.wire().len() as int) == c.wire());
        }
        let n = usize::de_ser(progress, buffer);
        proof {
            lemma_u64_le(n as u64);
            lemma_u64_le(wb.len() as u64);
            assert(buffer@.subrange(pos0, pos0 + 8) =~= u64_le(n as u64));
            assert(n == wb.len());
            assert(buffer@.subrange(pos0 + 8, pos0 + 8 + n) =~= buffer@.subrange(
                pos0,
                pos0 + w.wire().len() as int,
            ).subrange(8, 8 + n));
            assert(w.wire().subrange(8, 8 + n) =~= wb);
            vstd::utf8::encode_utf8_valid_utf8(w@);
        }
        let start = *progress;
        let bs = vstd::slice::slice_subrange(buffer, start, start + n);
        let v = vstd::slice::slice_to_vec(bs);
        let r = bytes_to_string(&v);
        *progress = *progress + n;
        proof {
            assert(encode_utf8(r@) == wb);
            assert(r.wire() =~= w.wire());
        }
        r
    }
}

} // verus!
