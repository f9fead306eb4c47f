//! Evaluation-domain sizing for the target prime field.
//!
//! An evaluation domain is a multiplicative subgroup whose size is a power
//! of two; the target field supports subgroup sizes up to two to the power
//! of its two-adicity. Every count stored in a circuit's metadata must map
//! to the smallest such size at least as large as the count, and every
//! domain-dependent operation fails deterministically when no such size
//! exists.

use vstd::arithmetic::power2::{lemma2_to64, lemma2_to64_rest, lemma_pow2_strictly_increases, pow2};
use vstd::prelude::*;

verus! {

/// The two-adicity of the target field: sizes up to `2^TWO_ADICITY` are valid.
pub const TWO_ADICITY: u64 = 47;

/// `2^TWO_ADICITY`, the largest valid evaluation-domain size.
pub const MAX_DOMAIN_SIZE: u64 = 0x800000000000;

/// Walks the powers of two from `2^k` upward and returns the first one
/// at least `n`, or `None` once the field's two-adicity is exhausted.
pub open spec fn domain_size_from(n: u64, k: nat) -> Option<u64>
    decreases 48 - k,
{
    if k > 47 {
        None
    } else if pow2(k) >= n {
        Some(pow2(k) as u64)
    } else {
        domain_size_from(n, k + 1)
    }
}

/// The smallest valid evaluation-domain size at least `n`, if one exists.
/// A count of zero maps to the one-element domain.
pub open spec fn domain_size_for(n: u64) -> Option<u64> {
    domain_size_from(n, 0)
}

/// What `domain_size_from` returns: the least power of two in range.
proof fn lemma_domain_size_from(n: u64, k: nat)
    requires
        k <= 47,
        forall|j: nat| j < k ==> pow2(j) < n,
    ensures
        match domain_size_from(n, k) {
            Some(s) => {
                &&& s >= n
                &&& s <= MAX_DOMAIN_SIZE
                &&& exists|j: nat| j <= 47 && s == pow2(j)
                &&& forall|j: nat| pow2(j) >= n ==> s <= pow2(j)
            },
            None => n > MAX_DOMAIN_SIZE,
        },
    decreases 48 - k,
{
    lemma2_to64();
    lemma2_to64_rest();
    assert(pow2(47) == MAX_DOMAIN_SIZE);
    if pow2(k) >= n {
        let s = pow2(k) as u64;
        assert(pow2(k) <= pow2(47)) by {
            if k < 47 {
                lemma_pow2_strictly_increases(k, 47);
            }
        }
        assert forall|j: nat| pow2(j) >= n implies s <= pow2(j) by {
            if j < k {
                assert(pow2(j) < n);
            } else if k < j {
                lemma_pow2_strictly_increases(k, j);
            }
        }
    } else if k == 47 {
        assert(n > MAX_DOMAIN_SIZE);
    } else {
        lemma_domain_size_from(n, k + 1);
    }
}

/// The properties of `domain_size_for` that callers rely on.
pub proof fn lemma_domain_size_for(n: u64)
    ensures
        match domain_size_for(n) {
            Some(s) => {
                &&& s >= n
                &&& 1 <= s <= MAX_DOMAIN_SIZE
                &&& exists|j: nat| j <= 47 && s == pow2(j)
            },
            None => n > MAX_DOMAIN_SIZE,
        },
{
    lemma_domain_size_from(n, 0);
    if domain_size_for(n) is Some {
        let s = domain_size_for(n)->Some_0;
        let j = choose|j: nat| j <= 47 && s == pow2(j);
        vstd::arithmetic::power2::lemma_pow2_pos(j);
    }
}

/// A valid domain size is its own smallest valid domain size: the sizing
/// function is idempotent.
pub proof fn lemma_domain_size_idempotent(n: u64)
    requires
        domain_size_for(n) is Some,
    ensures
        is_valid_domain_size(domain_size_for(n)->Some_0),
{
    let s = domain_size_for(n)->Some_0;
    lemma_domain_size_from(n, 0);
    let j = choose|j: nat| j <= 47 && s == pow2(j);
    lemma_domain_size_from(s, 0);
    match domain_size_for(s) {
        Some(s2) => {
            assert(s2 <= pow2(j));
        },
        None => {
            lemma2_to64();
            lemma2_to64_rest();
            assert(pow2(j) <= pow2(47)) by {
                if j < 47 {
                    lemma_pow2_strictly_increases(j, 47);
                }
            }
        },
    }
}

/// Computes the smallest valid evaluation-domain size at least `n`,
/// or `None` when `n` exceeds what the field's two-adicity supports.
pub fn compute_size_of_domain(n: u64) -> (r: Option<u64>)
    ensures
        r == domain_size_for(n),
{
    let mut k: u64 = 0;
    let mut size: u64 = 1;
    proof {
        lemma2_to64();
        lemma2_to64_rest();
    }
    loop
        invariant
            k <= 47,
            size == pow2(k as nat),
            size <= MAX_DOMAIN_SIZE,
            domain_size_for(n) == domain_size_from(n, k as nat),
        decreases 48 - k,
    {
        if size >= n {
            return Some(size);
        }
        if k == 47 {
            proof {
                assert(domain_size_from(n, 48) is None);
                assert(domain_size_from(n, 47) == domain_size_from(n, 48));
            }
            return None;
        }
        proof {
            vstd::arithmetic::power2::lemma_pow2_unfold((k + 1) as nat);
            if k + 1 < 47 {
                lemma_pow2_strictly_increases((k + 1) as nat, 47);
            }
            lemma2_to64();
            lemma2_to64_rest();
        }
        k += 1;
        size *= 2;
    }
}

/// Whether `s` is itself a valid evaluation-domain size: a power of two
/// within the field's two-adicity.
pub open spec fn is_valid_domain_size(s: u64) -> bool {
    domain_size_for(s) == Some(s)
}

/// Precomputed roots-of-unity tables for forward transforms, derived from
/// the largest domain they must serve. Never persisted: always rebuilt
/// from circuit metadata.
#[derive(Clone, Copy, Debug, PartialEq, Eq, Structural)]
pub struct FftPrecomputation {
    pub max_domain_size: u64,
}

/// Precomputed tables for inverse transforms; see `FftPrecomputation`.
#[derive(Clone, Copy, Debug, PartialEq, Eq, Structural)]
pub struct IfftPrecomputation {
    pub max_domain_size: u64,
}

/// The larger of two sizes.
pub open spec fn max2(a: u64, b: u64) -> u64 {
    if a >= b {
        a
    } else {
        b
    }
}

/// The transform tables determined by the five domain sizes of a circuit,
/// or `None` when any of them is not a valid domain size.
pub open spec fn spec_fft_precomputation(
    variable_domain_size: u64,
    constraint_domain_size: u64,
    non_zero_a_domain_size: u64,
    non_zero_b_domain_size: u64,
    non_zero_c_domain_size: u64,
) -> Option<(FftPrecomputation, IfftPrecomputation)> {
    if is_valid_domain_size(variable_domain_size) && is_valid_domain_size(constraint_domain_size)
        && is_valid_domain_size(non_zero_a_domain_size) && is_valid_domain_size(
        non_zero_b_domain_size,
    ) && is_valid_domain_size(non_zero_c_domain_size) {
        let m = max2(
            max2(variable_domain_size, constraint_domain_size),
            max2(non_zero_a_domain_size, max2(non_zero_b_domain_size, non_zero_c_domain_size)),
        );
        Some((FftPrecomputation { max_domain_size: m }, IfftPrecomputation { max_domain_size: m }))
    } else {
        None
    }
}

/// Rebuilds the forward and inverse transform tables from the five domain
/// sizes of a circuit. Deterministic; fails exactly when a size is not a
/// valid evaluation-domain size.
pub fn fft_precomputation(
    variable_domain_size: u64,
    constraint_domain_size: u64,
    non_zero_a_domain_size: u64,
    non_zero_b_domain_size: u64,
    non_zero_c_domain_size: u64,
) -> (r: Option<(FftPrecomputation, IfftPrecomputation)>)
    ensures
        r == spec_fft_precomputation(
            variable_domain_size,
            constraint_domain_size,
            non_zero_a_domain_size,
            non_zero_b_domain_size,
            non_zero_c_domain_size,
        ),
{
    let va = compute_size_of_domain(variable_domain_size);
    let co = compute_size_of_domain(constraint_domain_size);
    let za = compute_size_of_domain(non_zero_a_domain_size);
    let zb = compute_size_of_domain(non_zero_b_domain_size);
    let zc = compute_size_of_domain(non_zero_c_domain_size);
    let valid = va == Some(variable_domain_size) && co == Some(constraint_domain_size) && za
        == Some(non_zero_a_domain_size) && zb == Some(non_zero_b_domain_size) && zc == Some(
        non_zero_c_domain_size,
    );
    if !valid {
        return None;
    }
    let mut m = variable_domain_size;
    if constraint_domain_size > m {
        m = constraint_domain_size;
    }
    if non_zero_a_domain_size > m {
        m = non_zero_a_domain_size;
    }
    if non_zero_b_domain_size > m {
        m = non_zero_b_domain_size;
    }
    if non_zero_c_domain_size > m {
        m = non_zero_c_domain_size;
    }
    Some((FftPrecomputation { max_domain_size: m }, IfftPrecomputation { max_domain_size: m }))
}

} // verus!
