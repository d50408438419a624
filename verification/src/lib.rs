//! A binary serialization codec for same-build, same-process artifacts.
//!
//! Every serializable type implements [`codec::QuickSer`]: `ser` appends the
//! value's wire representation to a caller-owned byte buffer, and `de_ser`
//! reconstructs the value from a buffer at a caller-owned read position,
//! advancing the position exactly past the consumed bytes.
//!
//! Types are classified once, at the type level, as *trivial* (their wire
//! representation is a fixed-width byte image; see [`trivial::RealQuickSer`])
//! or *structured* (encoded field by field through the codec contract).
//! Container adapters for optional values, dynamic sequences, text, and
//! associative maps dispatch on that classification.

pub mod assoc;
pub mod bytes;
pub mod codec;
pub mod idents;
pub mod laws;
pub mod optional;
pub mod scalars;
pub mod sequence;
pub mod text;
pub mod trivial;
pub mod tuples;
pub mod variants;

pub use codec::QuickSer;
pub use trivial::RealQuickSer;
