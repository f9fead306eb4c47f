//! The content identity of an indexed circuit: an opaque 32-byte digest,
//! its lowercase-hex textual form, and recovery of an identity from a
//! witness label.

use blake2::Digest;
use vstd::prelude::*;
use vstd::string::StringSliceAdditionalSpecFns;

use crate::SerializationError;

verus! {

/// The 32-byte digest that the identity hash yields on the given input
/// bytes. Relied upon as a function of the input alone: the digest is
/// deterministic across calls, processes and machines.
pub uninterp spec fn blake2s_of(input: Seq<u8>) -> Seq<u8>;

/// Relies on blake2's `Blake2s256`: a 256-bit digest of the input bytes,
/// depending on the input bytes alone.
#[verifier::external_body]
pub(crate) fn blake2s_256(input: &Vec<u8>) -> (r: [u8; 32])
    ensures
        r@ == blake2s_of(input@),
{
    let mut hasher = blake2::Blake2s256::new();
    hasher.update(input.as_slice());
    hasher.finalize().into()
}

/// Whether `b` is an ASCII hexadecimal digit, of either case: `0` to `9`,
/// `A` to `F` or `a` to `f`.
pub open spec fn is_hex_digit(b: u8) -> bool {
    (48 <= b <= 57) || (65 <= b <= 70) || (97 <= b <= 102)
}

/// The numeric value of an ASCII hexadecimal digit.
pub open spec fn hex_val(b: u8) -> u8 {
    if 48 <= b <= 57 {
        (b - 48) as u8
    } else if 65 <= b <= 70 {
        (b - 65 + 10) as u8
    } else {
        (b - 97 + 10) as u8
    }
}

/// Whether every byte of `s` is a hexadecimal digit.
pub open spec fn is_hex_seq(s: Seq<u8>) -> bool {
    forall|i: int| 0 <= i < s.len() ==> is_hex_digit(#[trigger] s[i])
}

/// The bytes denoted by a sequence of hexadecimal digit pairs, high
/// nibble first.
pub open spec fn hex_decoded(s: Seq<u8>) -> Seq<u8> {
    Seq::new(s.len() / 2, |i: int| (hex_val(s[2 * i]) * 16 + hex_val(s[2 * i + 1])) as u8)
}

/// Relies on hex's `FromHex` for `[u8; 32]`: decoding succeeds exactly on
/// 64 hexadecimal digits (either case), two digits to a byte, high nibble
/// first.
#[verifier::external_body]
fn hex_decode_32(seg: &[u8]) -> (r: Option<[u8; 32]>)
    ensures
        match r {
            Some(a) => seg@.len() == 64 && is_hex_seq(seg@) && a@ == hex_decoded(seg@),
            None => !(seg@.len() == 64 && is_hex_seq(seg@)),
        },
{
    match <[u8; 32] as hex::FromHex>::from_hex(seg) {
        Ok(a) => Some(a),
        Err(_) => None,
    }
}

/// The lowercase hexadecimal digit for a nibble.
pub open spec fn hex_char_of(n: u8) -> char {
    match n {
        0 => '0',
        1 => '1',
        2 => '2',
        3 => '3',
        4 => '4',
        5 => '5',
        6 => '6',
        7 => '7',
        8 => '8',
        9 => '9',
        10 => 'a',
        11 => 'b',
        12 => 'c',
        13 => 'd',
        14 => 'e',
        _ => 'f',
    }
}

/// The lowercase hexadecimal rendering of `s`: two digits per byte, no
/// separators, no prefix.
pub open spec fn hex_chars_of(s: Seq<u8>) -> Seq<char>
    decreases s.len(),
{
    if s.len() == 0 {
        Seq::empty()
    } else {
        hex_chars_of(s.drop_last()) + seq![
            hex_char_of(s.last() / 16),
            hex_char_of(s.last() % 16),
        ]
    }
}

/// Relies on hex's `encode`: the lowercase hexadecimal rendering of the
/// input, two digits per byte, high nibble first, no separators.
#[verifier::external_body]
fn hex_encode(b: &[u8]) -> (r: String)
    ensures
        r@ == hex_chars_of(b@),
{
    hex::encode(b)
}

/// The first position at or after `i` holding an underscore, or the
/// length of `s` when there is none.
pub open spec fn find_underscore(s: Seq<u8>, i: int) -> int
    decreases s.len() - i,
{
    if i < 0 || i >= s.len() {
        s.len() as int
    } else if s[i] == 95 {
        i
    } else {
        find_underscore(s, i + 1)
    }
}

/// The second underscore-delimited segment of `s`: the bytes between the
/// first underscore and the following underscore or the end. `None` when
/// `s` holds no underscore at all.
pub open spec fn second_segment(s: Seq<u8>) -> Option<Seq<u8>> {
    let u = find_underscore(s, 0);
    if u == s.len() {
        None
    } else {
        Some(s.subrange(u + 1, find_underscore(s, u + 1)))
    }
}

/// What recovering an identity from a witness label yields: the decoded
/// second segment where it is exactly 64 hexadecimal digits, and a
/// malformed-label failure otherwise.
pub open spec fn spec_from_witness_label(s: Seq<u8>) -> Result<Seq<u8>, SerializationError> {
    match second_segment(s) {
        None => Err(SerializationError::MalformedLabel),
        Some(seg) => if seg.len() == 64 && is_hex_seq(seg) {
            Ok(hex_decoded(seg))
        } else {
            Err(SerializationError::MalformedLabel)
        },
    }
}

/// A 32-byte content hash identifying an indexed circuit. Ordered and
/// compared byte-wise; produced only by the identity hash or by parsing
/// a witness label.
#[derive(Clone, Copy, Debug)]
pub struct CircuitId(pub [u8; 32]);

impl CircuitId {
    /// Recovers a circuit identity from an underscore-delimited witness
    /// label whose second segment must be exactly 64 hexadecimal digits.
    /// Fails fast on any malformed label: a typed error, never a partial
    /// or zeroed identity.
    pub fn from_witness_label(witness_label: &str) -> (r: Result<CircuitId, SerializationError>)
        ensures
            match spec_from_witness_label(witness_label.spec_bytes()) {
                Ok(id) => r matches Ok(c) && c.0@ == id,
                Err(e) => r == Err::<CircuitId, _>(e),
            },
    {
        let bytes: &[u8] = witness_label.as_bytes();
        let n = bytes.len();
        let mut u: usize = 0;
        while u < n && *vstd::slice::slice_index_get(bytes, u) != 95
            invariant
                0 <= u <= n,
                n == bytes@.len(),
                find_underscore(bytes@, 0) == find_underscore(bytes@, u as int),
            decreases n - u,
        {
            u += 1;
        }
        if u == n {
            proof {
                assert(find_underscore(bytes@, u as int) == n);
            }
            return Err(SerializationError::MalformedLabel);
        }
        let mut j: usize = u + 1;
        while j < n && *vstd::slice::slice_index_get(bytes, j) != 95
            invariant
                u + 1 <= j <= n,
                n == bytes@.len(),
                find_underscore(bytes@, u + 1) == find_underscore(bytes@, j as int),
            decreases n - j,
        {
            j += 1;
        }
        proof {
            if j == n {
                assert(find_underscore(bytes@, j as int) == n);
            }
        }
        let seg = vstd::slice::slice_subrange(bytes, u + 1, j);
        match hex_decode_32(seg) {
            Some(a) => Ok(CircuitId(a)),
            None => Err(SerializationError::MalformedLabel),
        }
    }

    /// The lowercase hexadecimal form of this identity: two characters
    /// per byte, no separators, no prefix.
    pub fn to_hex_string(&self) -> (r: String)
        ensures
            r@ == hex_chars_of(self.0@),
    {
        hex_encode(self.0.as_slice())
    }
}

impl PartialEq for CircuitId {
    fn eq(&self, other: &CircuitId) -> (r: bool) {
        let mut i: usize = 0;
        while i < 32
            invariant
                i <= 32,
                forall|j: int| 0 <= j < i ==> self.0@[j] == other.0@[j],
            decreases 32 - i,
        {
            if self.0[i] != other.0[i] {
                return false;
            }
            i += 1;
        }
        proof {
            assert(self.0@ =~= other.0@);
        }
        true
    }
}

impl Eq for CircuitId {}

impl vstd::std_specs::cmp::PartialEqSpecImpl for CircuitId {
    open spec fn obeys_eq_spec() -> bool {
        true
    }

    open spec fn eq_spec(&self, other: &CircuitId) -> bool {
        self.0@ == other.0@
    }
}

/// Byte-wise lexicographic comparison of two equal-length sequences,
/// starting at position `i`.
pub open spec fn lex_cmp_from(a: Seq<u8>, b: Seq<u8>, i: int) -> core::cmp::Ordering
    decreases a.len() - i,
{
    if i < 0 || i >= a.len() || i >= b.len() {
        core::cmp::Ordering::Equal
    } else if a[i] < b[i] {
        core::cmp::Ordering::Less
    } else if a[i] > b[i] {
        core::cmp::Ordering::Greater
    } else {
        lex_cmp_from(a, b, i + 1)
    }
}

/// The byte-wise total order on circuit identities.
pub open spec fn spec_id_cmp(a: CircuitId, b: CircuitId) -> core::cmp::Ordering {
    lex_cmp_from(a.0@, b.0@, 0)
}

impl CircuitId {
    /// Compares two identities byte-wise, most significant byte first.
    pub fn compare(&self, other: &CircuitId) -> (r: core::cmp::Ordering)
        ensures
            r == spec_id_cmp(*self, *other),
    {
        let mut i: usize = 0;
        while i < 32
            invariant
                i <= 32,
                spec_id_cmp(*self, *other) == lex_cmp_from(self.0@, other.0@, i as int),
            decreases 32 - i,
        {
            if self.0[i] < other.0[i] {
                return core::cmp::Ordering::Less;
            }
            if self.0[i] > other.0[i] {
                return core::cmp::Ordering::Greater;
            }
            i += 1;
        }
        core::cmp::Ordering::Equal
    }
}

impl PartialOrd for CircuitId {
    fn partial_cmp(&self, other: &CircuitId) -> (r: Option<core::cmp::Ordering>) {
        Some(self.compare(other))
    }
}

impl vstd::std_specs::cmp::PartialOrdSpecImpl for CircuitId {
    open spec fn obeys_partial_cmp_spec() -> bool {
        true
    }

    open spec fn partial_cmp_spec(&self, other: &CircuitId) -> Option<core::cmp::Ordering> {
        Some(spec_id_cmp(*self, *other))
    }
}

} // verus!
