use varuna_indexer::id::CircuitId;
use varuna_indexer::path_hash::{DigestPathHasher, PathHash};
use varuna_indexer::SerializationError;

#[test]
fn witness_label_with_valid_segment_recovers_identity() {
    let mut expected = [0u8; 32];
    for (i, b) in expected.iter_mut().enumerate() {
        *b = (7 * i + 1) as u8;
    }
    let label = format!("circuit_{}", hex::encode(expected));
    let id = CircuitId::from_witness_label(&label).unwrap();
    assert_eq!(id.0, expected);
    // Upper-case digits decode to the same identity.
    let upper = format!("w_{}", hex::encode_upper(expected));
    assert_eq!(CircuitId::from_witness_label(&upper).unwrap(), id);
    // Trailing segments after the identity are ignored.
    let trailing = format!("w_{}_7", hex::encode(expected));
    assert_eq!(CircuitId::from_witness_label(&trailing).unwrap(), id);
}

#[test]
fn witness_label_with_non_hex_segment_fails_fast() {
    let r = CircuitId::from_witness_label("w_nothex");
    assert_eq!(r, Err(SerializationError::MalformedLabel));
}

#[test]
fn witness_label_with_short_hex_segment_fails_fast() {
    let seg: String = "ab".repeat(31) + "a";
    assert_eq!(seg.len(), 63);
    let label = format!("w_{seg}");
    let r = CircuitId::from_witness_label(&label);
    assert_eq!(r, Err(SerializationError::MalformedLabel));
}

#[test]
fn witness_label_without_underscore_fails_fast() {
    let seg = "ab".repeat(32);
    assert_eq!(CircuitId::from_witness_label(&seg), Err(SerializationError::MalformedLabel));
    assert_eq!(CircuitId::from_witness_label(""), Err(SerializationError::MalformedLabel));
}

#[test]
fn hex_rendering_is_lowercase_two_digits_per_byte() {
    let zero = CircuitId([0u8; 32]);
    assert_eq!(zero.to_hex_string(), "0".repeat(64));
    let mut bytes = [0u8; 32];
    bytes[0] = 0x01;
    bytes[1] = 0xab;
    bytes[31] = 0xff;
    let id = CircuitId(bytes);
    let s = id.to_hex_string();
    assert_eq!(s.len(), 64);
    assert!(s.starts_with("01ab"));
    assert!(s.ends_with("ff"));
    assert_eq!(s, hex::encode(bytes));
}

#[test]
fn identity_survives_a_label_round_trip() {
    let mut bytes = [0u8; 32];
    for (i, b) in bytes.iter_mut().enumerate() {
        *b = (251u64.wrapping_mul(i as u64 + 13) % 256) as u8;
    }
    let id = CircuitId(bytes);
    let label = format!("w_{}", id.to_hex_string());
    assert_eq!(CircuitId::from_witness_label(&label).unwrap(), id);
}

#[test]
fn identities_compare_bytewise() {
    let a = CircuitId([1u8; 32]);
    let mut later = [1u8; 32];
    later[31] = 2;
    let b = CircuitId(later);
    assert_eq!(a.partial_cmp(&a), Some(std::cmp::Ordering::Equal));
    assert_eq!(a.partial_cmp(&b), Some(std::cmp::Ordering::Less));
    assert_eq!(b.partial_cmp(&a), Some(std::cmp::Ordering::Greater));
    assert_eq!(a.compare(&b), std::cmp::Ordering::Less);
    assert!(a != b);
}

#[test]
fn empty_path_hash_is_the_hash_of_two_zero_children() {
    let hasher = DigestPathHasher;
    let zero = varuna_indexer::field::FieldElement { repr: [0u8; 32] };
    let empty = hasher.hash_empty();
    let direct = hasher.hash_children(&zero, &zero);
    assert_eq!(empty, direct);
    // The digest is domain-tagged and nontrivial: hashing distinct
    // children moves the output.
    let one = varuna_indexer::field::FieldElement { repr: [1u8; 32] };
    let other = hasher.hash_children(&zero, &one);
    assert_ne!(empty, other);
    let swapped = hasher.hash_children(&one, &zero);
    assert_ne!(other, swapped);
    // Stable across calls.
    assert_eq!(hasher.hash_children(&zero, &one), other);
}
