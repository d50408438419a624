//! The codec's laws, instantiated where the general statements in
//! [`crate::codec`] meet particular type shapes: the fast path, nested
//! containers, the two sequence strategies, and the sum-type rule.

use vstd::prelude::*;

use crate::codec::{encodes_at, lemma_round_trip, QuickSer};
use crate::trivial::RealQuickSer;
use crate::variants::Choice;

verus! {

/// The round-trip law on the fast path: for a trivial type every
/// representable value — zero, maximal, negative, any bit pattern the
/// type admits — decodes back from its own encoding, since its byte
/// image is its whole wire representation.
pub proof fn lemma_trivial_round_trip<T: RealQuickSer>(prefix: Seq<u8>, suffix: Seq<u8>, v: T, r: T)
    requires
        prefix.len() + v.wire().len() + suffix.len() <= usize::MAX,
        encodes_at(prefix + v.wire() + suffix, prefix.len() as int, r),
    ensures
        r.deep_view() == v.deep_view(),
        r.wire().len() == v.wire().len(),
{
    lemma_round_trip(prefix, suffix, v, r);
}

/// Composability: a dynamic sequence of optional fixed triples of bytes —
/// sequence, optional, tuple and fast-path dispatch nested in one type —
/// obeys the round-trip law.
pub proof fn lemma_nested_round_trip(
    prefix: Seq<u8>,
    suffix: Seq<u8>,
    v: Vec<Option<(u8, u8, u8)>>,
    r: Vec<Option<(u8, u8, u8)>>,
)
    requires
        prefix.len() + v.wire().len() + suffix.len() <= usize::MAX,
        encodes_at(prefix + v.wire() + suffix, prefix.len() as int, r),
    ensures
        r.deep_view() == v.deep_view(),
        r.wire().len() == v.wire().len(),
{
    lemma_round_trip(prefix, suffix, v, r);
}

/// The contiguous-block strategy: a dynamic sequence of byte-sized
/// integers, whose elements take the fast path, obeys the round-trip law.
pub proof fn lemma_byte_sequence_round_trip(
    prefix: Seq<u8>,
    suffix: Seq<u8>,
    v: Vec<u8>,
    r: Vec<u8>,
)
    requires
        prefix.len() + v.wire().len() + suffix.len() <= usize::MAX,
        encodes_at(prefix + v.wire() + suffix, prefix.len() as int, r),
    ensures
        r.deep_view() == v.deep_view(),
        r.wire().len() == v.wire().len(),
{
    lemma_round_trip(prefix, suffix, v, r);
}

/// The per-element strategy: a dynamic sequence of text values, whose
/// elements are structured, obeys the same round-trip law as the
/// contiguous block.
pub proof fn lemma_text_sequence_round_trip(
    prefix: Seq<u8>,
    suffix: Seq<u8>,
    v: Vec<String>,
    r: Vec<String>,
)
    requires
        prefix.len() + v.wire().len() + suffix.len() <= usize::MAX,
        encodes_at(prefix + v.wire() + suffix, prefix.len() as int, r),
    ensures
        r.deep_view() == v.deep_view(),
        r.wire().len() == v.wire().len(),
{
    lemma_round_trip(prefix, suffix, v, r);
}

/// Sum-type coverage: every case of the reference sum type — field-less,
/// one-field and two-field alike — decodes back to itself, tag and field
/// values included.
pub proof fn lemma_choice_round_trip(prefix: Seq<u8>, suffix: Seq<u8>, v: Choice, r: Choice)
    requires
        prefix.len() + v.wire().len() + suffix.len() <= usize::MAX,
        encodes_at(prefix + v.wire() + suffix, prefix.len() as int, r),
    ensures
        r == v,
{
    lemma_round_trip(prefix, suffix, v, r);
}

} // verus!
