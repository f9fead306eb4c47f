use blake2::Digest;
use varuna_indexer::arith::{
    LabeledPolynomial, Matrix, MatrixArithmetization, MatrixEntry, MatrixEvals,
};
use varuna_indexer::circuit::Circuit;
use varuna_indexer::field::FieldElement;
use varuna_indexer::info::CircuitInfo;
use varuna_indexer::{Compress, SerializationError, SnarkMode, Validate};

fn fe(tag: u8) -> FieldElement {
    let mut repr = [0u8; 32];
    repr[0] = tag;
    repr[1] = tag.wrapping_mul(3);
    FieldElement { repr }
}

fn entry(tag: u8, column: u64) -> MatrixEntry {
    MatrixEntry { coeff: fe(tag), column }
}

fn small_matrix(seed: u8) -> Matrix {
    vec![
        vec![entry(seed, 0), entry(seed.wrapping_add(1), 2)],
        vec![],
        vec![entry(seed.wrapping_add(2), 1)],
    ]
}

fn poly(label: &str, seed: u8, n: u8) -> LabeledPolynomial {
    LabeledPolynomial {
        label: label.as_bytes().to_vec(),
        coeffs: (0..n).map(|i| fe(seed.wrapping_add(i))).collect(),
    }
}

fn arith(prefix: &str, seed: u8, with_row_col_evals: bool) -> MatrixArithmetization {
    MatrixArithmetization {
        row: poly(&format!("{prefix}_row"), seed, 3),
        col: poly(&format!("{prefix}_col"), seed.wrapping_add(10), 3),
        row_col: poly(&format!("{prefix}_row_col"), seed.wrapping_add(20), 2),
        row_col_val: poly(&format!("{prefix}_row_col_val"), seed.wrapping_add(30), 2),
        evals_on_K: MatrixEvals {
            row: vec![fe(seed.wrapping_add(40)), fe(seed.wrapping_add(41))],
            col: vec![fe(seed.wrapping_add(50))],
            row_col: if with_row_col_evals {
                Some(vec![fe(seed.wrapping_add(60)), fe(seed.wrapping_add(61))])
            } else {
                None
            },
        },
    }
}

fn small_info() -> CircuitInfo {
    CircuitInfo {
        num_constraints: 3,
        num_variables: 4,
        num_non_zero_a: 3,
        num_non_zero_b: 3,
        num_non_zero_c: 3,
    }
}

fn small_circuit(mode: SnarkMode) -> Circuit {
    Circuit::new(
        small_info(),
        small_matrix(1),
        small_matrix(30),
        small_matrix(60),
        arith("a", 1, true),
        arith("b", 90, true),
        arith("c", 180, true),
        mode,
    )
    .expect("small circuit must assemble")
}

#[test]
fn hash_is_deterministic() {
    let info = small_info();
    let a = small_matrix(1);
    let b = small_matrix(30);
    let c = small_matrix(60);
    let id1 = Circuit::hash(&info, &a, &b, &c).unwrap();
    let id2 = Circuit::hash(&info, &a, &b, &c).unwrap();
    assert_eq!(id1, id2);
}

#[test]
fn hash_matches_direct_digest_of_canonical_bytes() {
    let circuit = small_circuit(SnarkMode::NonHiding);
    let id = Circuit::hash(&circuit.index_info, &circuit.a, &circuit.b, &circuit.c).unwrap();
    // The identity must be the digest of the canonical encodings of the
    // metadata and the three matrices: recompute it with the hash library
    // directly over the serialized prefix.
    let full = circuit.serialize_with_mode(Compress::No);
    let arith_suffix_start = {
        // metadata: 5 * 8 bytes; each matrix: 8 + per-row (8 + 40 per entry)
        let matrix_len = |m: &Matrix| 8 + m.iter().map(|r| 8 + 40 * r.len()).sum::<usize>();
        40 + matrix_len(&circuit.a) + matrix_len(&circuit.b) + matrix_len(&circuit.c)
    };
    let mut hasher = blake2::Blake2s256::new();
    hasher.update(&full[..arith_suffix_start]);
    let expected: [u8; 32] = hasher.finalize().into();
    assert_eq!(id.0, expected);
}

#[test]
fn hash_is_sensitive_to_a_single_entry() {
    let info = small_info();
    let a = small_matrix(1);
    let b = small_matrix(30);
    let c = small_matrix(60);
    let mut a2 = small_matrix(1);
    a2[0][1].coeff = fe(99);
    let id1 = Circuit::hash(&info, &a, &b, &c).unwrap();
    let id2 = Circuit::hash(&info, &a2, &b, &c).unwrap();
    assert_ne!(id1, id2);
}

#[test]
fn id_independent_of_mode_and_arithmetization() {
    let c1 = small_circuit(SnarkMode::NonHiding);
    let c2 = Circuit::new(
        small_info(),
        small_matrix(1),
        small_matrix(30),
        small_matrix(60),
        arith("other_a", 7, false),
        arith("other_b", 77, false),
        arith("other_c", 177, true),
        SnarkMode::Hiding,
    )
    .unwrap();
    assert_eq!(c1.id(), c2.id());
    assert_eq!(c1, c2);
}

#[test]
fn round_trip_preserves_everything() {
    let circuit = small_circuit(SnarkMode::Hiding);
    let bytes = circuit.serialize_with_mode(Compress::No);
    let back = Circuit::deserialize_with_mode(&bytes, Compress::No, Validate::Yes, SnarkMode::Hiding).unwrap();
    assert_eq!(back.id(), circuit.id());
    assert_eq!(back.index_info, circuit.index_info);
    assert_eq!(back.a, circuit.a);
    assert_eq!(back.b, circuit.b);
    assert_eq!(back.c, circuit.c);
    for (x, y) in [
        (&back.a_arith, &circuit.a_arith),
        (&back.b_arith, &circuit.b_arith),
        (&back.c_arith, &circuit.c_arith),
    ] {
        for (p, q) in [
            (&x.row, &y.row),
            (&x.col, &y.col),
            (&x.row_col, &y.row_col),
            (&x.row_col_val, &y.row_col_val),
        ] {
            assert_eq!(p.label, q.label);
            assert_eq!(p.coeffs, q.coeffs);
        }
        assert_eq!(x.evals_on_K.row, y.evals_on_K.row);
        assert_eq!(x.evals_on_K.col, y.evals_on_K.col);
        assert_eq!(x.evals_on_K.row_col, y.evals_on_K.row_col);
    }
    // The rebuilt transform tables are functionally equivalent: the same
    // domain sizes.
    assert_eq!(back.fft_precomputation, circuit.fft_precomputation);
    assert_eq!(back.ifft_precomputation, circuit.ifft_precomputation);
    // Round-tripping the bytes again yields identical bytes.
    assert_eq!(back.serialize_with_mode(Compress::No), bytes);
}

#[test]
fn round_trip_under_compressed_mode() {
    let circuit = small_circuit(SnarkMode::NonHiding);
    let bytes = circuit.serialize_with_mode(Compress::Yes);
    let back = Circuit::deserialize_with_mode(&bytes, Compress::Yes, Validate::No, SnarkMode::NonHiding).unwrap();
    assert_eq!(back.id(), circuit.id());
}

#[test]
fn iteration_yields_twelve_polynomials_in_protocol_order() {
    let circuit = small_circuit(SnarkMode::NonHiding);
    let polys = circuit.iter();
    assert_eq!(polys.len(), 12);
    let labels: Vec<&[u8]> = polys.iter().map(|p| p.label.as_slice()).collect();
    let expected: Vec<&[u8]> = vec![
        b"a_col",
        b"b_col",
        b"c_col",
        b"a_row",
        b"b_row",
        b"c_row",
        b"a_row_col",
        b"b_row_col",
        b"c_row_col",
        b"a_row_col_val",
        b"b_row_col_val",
        b"c_row_col_val",
    ];
    assert_eq!(labels, expected);
    // Restartable: a second pass yields the same order.
    let again: Vec<&[u8]> = circuit.iter().iter().map(|p| p.label.as_slice()).collect();
    assert_eq!(again, expected);
}

#[test]
fn pruning_is_idempotent_and_preserves_identity() {
    let mut circuit = small_circuit(SnarkMode::NonHiding);
    let id_before = circuit.id();
    let size_before = circuit.serialized_size(Compress::No);
    assert!(circuit.a_arith.evals_on_K.row_col.is_some());
    circuit.prune_row_col_evals();
    assert!(circuit.a_arith.evals_on_K.row_col.is_none());
    assert!(circuit.b_arith.evals_on_K.row_col.is_none());
    assert!(circuit.c_arith.evals_on_K.row_col.is_none());
    assert_eq!(circuit.id(), id_before);
    let size_after = circuit.serialized_size(Compress::No);
    assert!(size_after < size_before);
    // Other evaluation tables survive pruning.
    assert_eq!(circuit.a_arith.evals_on_K.row.len(), 2);
    assert_eq!(circuit.a_arith.evals_on_K.col.len(), 1);
    let bytes_once = circuit.serialize_with_mode(Compress::No);
    circuit.prune_row_col_evals();
    assert_eq!(circuit.serialize_with_mode(Compress::No), bytes_once);
    assert_eq!(circuit.id(), id_before);
    assert_eq!(circuit.serialized_size(Compress::No), size_after);
}

#[test]
fn domain_size_queries_round_counts_up_to_powers_of_two() {
    let circuit = Circuit::new(
        CircuitInfo {
            num_constraints: 5,
            num_variables: 0,
            num_non_zero_a: 6,
            num_non_zero_b: 7,
            num_non_zero_c: 8,
        },
        vec![],
        vec![],
        vec![],
        arith("a", 1, true),
        arith("b", 2, true),
        arith("c", 3, true),
        SnarkMode::NonHiding,
    )
    .unwrap();
    assert_eq!(circuit.constraint_domain_size().unwrap(), 8);
    assert_eq!(circuit.variable_domain_size().unwrap(), 1);
    // Largest non-zero count is 8; its domain has size 8. The maximum
    // degree without hiding is max(2*8 - 2, 2*1 - 2, 2*8 - 2).
    assert_eq!(circuit.max_degree().unwrap(), 14);
}

#[test]
fn max_degree_accounts_for_hiding_mode() {
    let c_plain = small_circuit(SnarkMode::NonHiding);
    let c_hiding = small_circuit(SnarkMode::Hiding);
    // Domains: constraints 3 -> 4, variables 4 -> 4, non-zero 3 -> 4.
    assert_eq!(c_plain.max_degree().unwrap(), 6);
    assert_eq!(c_hiding.max_degree().unwrap(), 7);
}

#[test]
fn assembling_with_oversized_counts_is_rejected() {
    let too_big = (1u64 << 47) + 1;
    let r = Circuit::new(
        CircuitInfo {
            num_constraints: too_big,
            num_variables: 1,
            num_non_zero_a: 1,
            num_non_zero_b: 1,
            num_non_zero_c: 1,
        },
        vec![],
        vec![],
        vec![],
        arith("a", 1, true),
        arith("b", 2, true),
        arith("c", 3, true),
        SnarkMode::NonHiding,
    );
    assert!(matches!(r, Err(SerializationError::InvalidData)));
}

#[test]
fn deserializing_invalid_domain_counts_is_invalid_data() {
    let circuit = small_circuit(SnarkMode::NonHiding);
    let mut bytes = circuit.serialize_with_mode(Compress::No);
    // Overwrite the first metadata word (the constraint count) with a
    // count no evaluation domain of the field can cover.
    let too_big = ((1u64 << 47) + 1).to_le_bytes();
    bytes[..8].copy_from_slice(&too_big);
    let r = Circuit::deserialize_with_mode(&bytes, Compress::No, Validate::Yes, SnarkMode::NonHiding);
    assert!(matches!(r, Err(SerializationError::InvalidData)));
}

#[test]
fn deserializing_truncated_or_padded_streams_is_malformed() {
    let circuit = small_circuit(SnarkMode::NonHiding);
    let bytes = circuit.serialize_with_mode(Compress::No);

    let truncated = &bytes[..bytes.len() - 1].to_vec();
    let r = Circuit::deserialize_with_mode(truncated, Compress::No, Validate::No, SnarkMode::NonHiding);
    assert!(matches!(r, Err(SerializationError::Malformed)));

    let mut padded = bytes.clone();
    padded.push(0);
    let r = Circuit::deserialize_with_mode(&padded, Compress::No, Validate::No, SnarkMode::NonHiding);
    assert!(matches!(r, Err(SerializationError::Malformed)));

    let tiny = vec![1u8, 2, 3];
    let r = Circuit::deserialize_with_mode(&tiny, Compress::No, Validate::No, SnarkMode::NonHiding);
    assert!(matches!(r, Err(SerializationError::Malformed)));
}

#[test]
fn serialized_size_matches_wire_length() {
    let circuit = small_circuit(SnarkMode::Hiding);
    assert_eq!(
        circuit.serialized_size(Compress::No),
        circuit.serialize_with_mode(Compress::No).len()
    );
}

#[test]
fn checks_are_trivially_valid() {
    let c1 = small_circuit(SnarkMode::NonHiding);
    let c2 = small_circuit(SnarkMode::Hiding);
    assert!(c1.check().is_ok());
    assert!(Circuit::batch_check(&vec![&c1, &c2]).is_ok());
}

#[test]
fn circuits_order_by_identity() {
    let c1 = small_circuit(SnarkMode::NonHiding);
    let c2 = small_circuit(SnarkMode::Hiding);
    assert_eq!(c1.partial_cmp(&c2), Some(std::cmp::Ordering::Equal));
    let mut other = small_circuit(SnarkMode::NonHiding);
    other.prune_row_col_evals();
    // Pruning keeps the identity, so ordering still sees equal circuits.
    assert_eq!(c1.partial_cmp(&other), Some(std::cmp::Ordering::Equal));
}
