//! Model of a prime-field element as consumed by this layer.
//!
//! This layer never performs field arithmetic: it only carries field
//! elements through hashing and the canonical wire codec. A field element
//! is therefore held as its canonical 32-byte little-endian representation,
//! which is exactly what the codec writes for it.

use vstd::prelude::*;

verus! {

/// A prime-field element, held as its canonical 32-byte representation.
#[derive(Clone, Copy, Debug)]
pub struct FieldElement {
    pub repr: [u8; 32],
}

/// The canonical byte sequence of the additive identity.
pub open spec fn zero_bytes() -> Seq<u8> {
    Seq::new(32, |i: int| 0u8)
}

impl FieldElement {
    /// Returns the additive identity: the all-zero representation.
    pub fn zero() -> (r: FieldElement)
        ensures
            r.repr@ == zero_bytes(),
    {
        let repr = [0u8; 32];
        let r = FieldElement { repr };
        proof {
            vstd::array::axiom_spec_array_fill_for_copy_type::<u8, 32>(0u8);
            assert(r.repr@ =~= zero_bytes());
        }
        r
    }
}

impl PartialEq for FieldElement {
    fn eq(&self, other: &FieldElement) -> (r: bool) {
        let mut i: usize = 0;
        while i < 32
            invariant
                i <= 32,
                forall|j: int| 0 <= j < i ==> self.repr@[j] == other.repr@[j],
            decreases 32 - i,
        {
            if self.repr[i] != other.repr[i] {
                return false;
            }
            i += 1;
        }
        proof {
            assert(self.repr@ =~= other.repr@);
        }
        true
    }
}

impl Eq for FieldElement {}

impl vstd::std_specs::cmp::PartialEqSpecImpl for FieldElement {
    open spec fn obeys_eq_spec() -> bool {
        true
    }

    open spec fn eq_spec(&self, other: &FieldElement) -> bool {
        self.repr@ == other.repr@
    }
}

} // verus!
