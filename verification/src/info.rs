//! Scalar metadata about an indexed circuit, and the degree bound the
//! commitment scheme must support for it.

use crate::domain::{domain_size_for, max2, MAX_DOMAIN_SIZE};
use crate::{SerializationError, SnarkMode};
use vstd::prelude::*;

verus! {

/// Information about an indexed circuit: the constraint, variable and
/// per-matrix non-zero-entry counts of the underlying constraint system.
#[derive(Clone, Copy, Debug, PartialEq, Eq, Structural)]
pub struct CircuitInfo {
    pub num_constraints: u64,
    pub num_variables: u64,
    pub num_non_zero_a: u64,
    pub num_non_zero_b: u64,
    pub num_non_zero_c: u64,
}

/// The extra degree slack a hiding mode demands of committed polynomials.
pub open spec fn spec_zk_bound(mode: SnarkMode) -> u64 {
    match mode {
        SnarkMode::Hiding => 1,
        SnarkMode::NonHiding => 0,
    }
}

/// Whether every count of `info` maps to a valid evaluation-domain size.
pub open spec fn domains_ok(info: CircuitInfo) -> bool {
    &&& domain_size_for(info.num_constraints) is Some
    &&& domain_size_for(info.num_variables) is Some
    &&& domain_size_for(info.num_non_zero_a) is Some
    &&& domain_size_for(info.num_non_zero_b) is Some
    &&& domain_size_for(info.num_non_zero_c) is Some
}

/// The maximum polynomial degree the commitment scheme must support for a
/// circuit with this metadata, under the given mode: the largest of the
/// degrees demanded by the constraint domain, the variable domain and the
/// largest non-zero domain. `None` when a count admits no valid domain.
pub open spec fn spec_max_degree(info: CircuitInfo, mode: SnarkMode) -> Option<u64> {
    if domains_ok(info) {
        let cds = domain_size_for(info.num_constraints)->Some_0;
        let vds = domain_size_for(info.num_variables)->Some_0;
        let nz = max2(info.num_non_zero_a, max2(info.num_non_zero_b, info.num_non_zero_c));
        if domain_size_for(nz) is Some {
            let nzds = domain_size_for(nz)->Some_0;
            let zk = spec_zk_bound(mode);
            Some(
                max2(
                    (2 * cds + zk - 2) as u64,
                    max2((2 * vds + zk - 2) as u64, (2 * nzds - 2) as u64),
                ),
            )
        } else {
            None
        }
    } else {
        None
    }
}

impl CircuitInfo {
    /// The maximum degree required to represent the polynomials of a
    /// circuit with this metadata under `mode`, or `InvalidData` when a
    /// count admits no valid evaluation domain.
    pub fn max_degree(&self, mode: SnarkMode) -> (r: Result<u64, SerializationError>)
        ensures
            match spec_max_degree(*self, mode) {
                Some(d) => r == Ok::<u64, SerializationError>(d),
                None => r == Err::<u64, SerializationError>(SerializationError::InvalidData),
            },
    {
        proof {
            crate::domain::lemma_domain_size_for(self.num_constraints);
            crate::domain::lemma_domain_size_for(self.num_variables);
            crate::domain::lemma_domain_size_for(self.num_non_zero_a);
            crate::domain::lemma_domain_size_for(self.num_non_zero_b);
            crate::domain::lemma_domain_size_for(self.num_non_zero_c);
        }
        let cds = match crate::domain::compute_size_of_domain(self.num_constraints) {
            Some(s) => s,
            None => {
                return Err(SerializationError::InvalidData);
            },
        };
        let vds = match crate::domain::compute_size_of_domain(self.num_variables) {
            Some(s) => s,
            None => {
                return Err(SerializationError::InvalidData);
            },
        };
        if crate::domain::compute_size_of_domain(self.num_non_zero_a).is_none()
            || crate::domain::compute_size_of_domain(self.num_non_zero_b).is_none()
            || crate::domain::compute_size_of_domain(self.num_non_zero_c).is_none() {
            return Err(SerializationError::InvalidData);
        }
        let mut nz = self.num_non_zero_a;
        if self.num_non_zero_b > nz {
            nz = self.num_non_zero_b;
        }
        if self.num_non_zero_c > nz {
            nz = self.num_non_zero_c;
        }
        proof {
            crate::domain::lemma_domain_size_for(nz);
        }
        let nzds = match crate::domain::compute_size_of_domain(nz) {
            Some(s) => s,
            None => {
                // The largest count equals one of the three, each of which
                // was just found to admit a domain.
                proof {
                    assert(false);
                }
                return Err(SerializationError::InvalidData);
            },
        };
        let zk: u64 = match mode {
            SnarkMode::Hiding => 1,
            SnarkMode::NonHiding => 0,
        };
        proof {
            assert(cds <= MAX_DOMAIN_SIZE && vds <= MAX_DOMAIN_SIZE && nzds <= MAX_DOMAIN_SIZE);
        }
        let d1: u64 = 2 * cds + zk - 2;
        let d2: u64 = 2 * vds + zk - 2;
        let d3: u64 = 2 * nzds - 2;
        let mut d = d1;
        if d2 > d {
            d = d2;
        }
        if d3 > d {
            d = d3;
        }
        Ok(d)
    }
}

} // verus!
