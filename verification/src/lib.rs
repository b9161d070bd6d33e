//! A declarative, recursive UI description (a "tag tree") and its compact
//! binary wire encoding.
//!
//! One node of the tree is a [`basetag::Tag`]: a layout-behaviour class
//! ([`basetag::StyleType`]), visual attributes common to every node
//! ([`basetag::StyleBase`]), and an ordered sequence of child tags. The
//! [`codec`] module maps a tree to a byte sequence and back — little-endian,
//! fixed-width discriminants, 8-byte length prefixes — and reports a precise
//! failure for any malformed input. The [`laws`] module proves the codec's
//! guarantees: deterministic encoding, exact round trips, and failure on
//! every truncated input.

pub mod basetag;
pub mod codec;
pub mod laws;
