//! Indexing and circuit-identity layer of an algebraic holographic proof
//! system over rank-1 constraint systems: a content-addressed, serializable
//! indexed-circuit artifact with a deterministic identity hash, canonical
//! wire codec, domain-size queries, ordered polynomial iteration and a
//! one-way pruning operation.

use vstd::prelude::*;

pub mod arith;
pub mod circuit;
pub mod codec;
pub mod domain;
pub mod field;
pub mod id;
pub mod info;
pub mod path_hash;
pub mod wire;

verus! {

/// Whether the canonical wire form is written compressed or uncompressed.
///
/// Every component of the wire form at this layer is a fixed-size integer
/// representation, whose canonical encoding is identical under both modes;
/// the flag is threaded uniformly so that callers can select a mode once
/// for an entire key.
#[derive(Clone, Copy, Debug, PartialEq, Eq, Structural)]
pub enum Compress {
    No,
    Yes,
}

/// Whether a deserialized value is additionally run through the
/// structural validity check. The check at this layer is deliberately
/// trivial; deeper algebraic validation belongs to circuit synthesis.
#[derive(Clone, Copy, Debug, PartialEq, Eq, Structural)]
pub enum Validate {
    No,
    Yes,
}

/// The proving-mode configuration of the proof system.
///
/// The mode selects degree and domain policy at indexing time. It never
/// contributes to a circuit's identity hash or to its wire form: two
/// circuits with the same constraint system share an identity even when
/// indexed under different modes.
#[derive(Clone, Copy, Debug, PartialEq, Eq, Structural)]
pub enum SnarkMode {
    /// Zero-knowledge (hiding) parameterization.
    Hiding,
    /// Plain (non-hiding) parameterization.
    NonHiding,
}

/// Errors surfaced by the fallible operations of this crate.
///
/// Every validity failure is reported as a typed error; no operation of this
/// crate panics. This is one consistent policy across the in-memory queries,
/// the label parser and the deserializer.
#[derive(Clone, Copy, Debug, PartialEq, Eq, Structural)]
pub enum SerializationError {
    /// A byte stream does not hold a canonical encoding of the expected value.
    Malformed,
    /// A size recorded in the stream cannot form a valid evaluation domain.
    InvalidData,
    /// A witness label does not hold a well-formed identity segment.
    MalformedLabel,
}

} // verus!
