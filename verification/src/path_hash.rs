//! A Merkle path hash: the capability of combining two child nodes into
//! a parent node, with a derived empty-node hash.
//!
//! The empty hash is not free-standing: it is, by definition, the hash of
//! two zero children, and the provided method computes it exactly so.

use crate::field::{zero_bytes, FieldElement};
use crate::id::{blake2s_256, blake2s_of};
use vstd::prelude::*;

verus! {

/// A hash function over pairs of Merkle-tree child nodes.
pub trait PathHash {
    /// The representation bytes of the parent that hashing a pair of
    /// child representations yields.
    spec fn spec_hash_children(&self, left: Seq<u8>, right: Seq<u8>) -> Seq<u8>;

    /// Returns the hash of the given child nodes.
    fn hash_children(&self, left: &FieldElement, right: &FieldElement) -> (r: FieldElement)
        ensures
            r.repr@ == self.spec_hash_children(left.repr@, right.repr@),
    ;

    /// Returns the empty hash: the hash of two zero children.
    fn hash_empty(&self) -> (r: FieldElement)
        ensures
            r.repr@ == self.spec_hash_children(zero_bytes(), zero_bytes()),
    {
        let left = FieldElement::zero();
        let right = FieldElement::zero();
        self.hash_children(&left, &right)
    }
}

/// A path hash backed by the identity digest: the parent is the digest
/// of a node tag followed by the two child representations.
pub struct DigestPathHasher;

impl PathHash for DigestPathHasher {
    open spec fn spec_hash_children(&self, left: Seq<u8>, right: Seq<u8>) -> Seq<u8> {
        blake2s_of(seq![1u8] + left + right)
    }

    /// Returns the hash of the given child nodes: the children are
    /// prepended with a one-byte node tag and digested.
    fn hash_children(&self, left: &FieldElement, right: &FieldElement) -> (r: FieldElement) {
        let mut input: Vec<u8> = Vec::new();
        input.push(1u8);
        crate::wire::write_fe(&mut input, left);
        crate::wire::write_fe(&mut input, right);
        proof {
            assert(input@ =~= seq![1u8] + left.repr@ + right.repr@);
        }
        FieldElement { repr: blake2s_256(&input) }
    }
}

} // verus!
