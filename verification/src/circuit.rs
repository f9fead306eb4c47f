//! The indexed circuit: the aggregate of the constraint-system metadata,
//! the three matrices, their arithmetizations, the rebuilt transform
//! tables, the proving mode and the cached content identity.
//!
//! Invariants of a well-formed circuit:
//! - its identity is the digest of the canonical encoding of
//!   (metadata, A, B, C) alone — never of the arithmetization, the
//!   transform tables or the mode;
//! - its transform tables are the ones determined by the metadata's
//!   counts, which all admit valid evaluation domains.

use crate::arith::{
    arith_v, lemma_arith_view_wf, lemma_matrix_view_wf, matrix_v, ArithV, LabeledPolynomial,
    Matrix, MatrixArithmetization, MatrixEvalsV,
};
use crate::codec::{
    dec_arith, dec_info, dec_matrix, enc_arith, enc_info, enc_matrix, lemma_dec_enc_arith,
    lemma_dec_enc_info, lemma_dec_enc_matrix, lemma_subrange_split,
};
use crate::domain::{
    domain_size_for, fft_precomputation, spec_fft_precomputation, FftPrecomputation,
    IfftPrecomputation,
};
use crate::id::{blake2s_256, blake2s_of, spec_id_cmp, CircuitId};
use crate::info::{domains_ok, spec_max_degree, CircuitInfo};
use crate::wire::{read_arith, read_info, read_matrix, write_arith, write_info, write_matrix};
use crate::{Compress, SerializationError, SnarkMode, Validate};
use vstd::prelude::*;

verus! {

/// The view of everything a circuit persists: metadata, matrices and
/// arithmetizations. The transform tables, the mode and the identity are
/// not content: they are derived.
#[verifier::ext_equal]
pub ghost struct ContentV {
    pub info: CircuitInfo,
    pub a: Seq<Seq<crate::arith::EntryV>>,
    pub b: Seq<Seq<crate::arith::EntryV>>,
    pub c: Seq<Seq<crate::arith::EntryV>>,
    pub a_arith: ArithV,
    pub b_arith: ArithV,
    pub c_arith: ArithV,
}

pub open spec fn wf_content(v: ContentV) -> bool {
    &&& crate::arith::wf_matrix_v(v.a)
    &&& crate::arith::wf_matrix_v(v.b)
    &&& crate::arith::wf_matrix_v(v.c)
    &&& crate::arith::wf_arith_v(v.a_arith)
    &&& crate::arith::wf_arith_v(v.b_arith)
    &&& crate::arith::wf_arith_v(v.c_arith)
}

/// The canonical wire form of a circuit: the ordered concatenation of its
/// persisted components. Identical under both compression modes: every
/// component is a fixed-width integer representation.
pub open spec fn enc_content(v: ContentV) -> Seq<u8> {
    enc_info(v.info) + enc_matrix(v.a) + enc_matrix(v.b) + enc_matrix(v.c) + enc_arith(v.a_arith)
        + enc_arith(v.b_arith) + enc_arith(v.c_arith)
}

/// The bytes fed to the identity digest: the canonical encodings of the
/// metadata and the three matrices, in that fixed order.
pub open spec fn hash_input(
    info: CircuitInfo,
    a: Seq<Seq<crate::arith::EntryV>>,
    b: Seq<Seq<crate::arith::EntryV>>,
    c: Seq<Seq<crate::arith::EntryV>>,
) -> Seq<u8> {
    enc_info(info) + enc_matrix(a) + enc_matrix(b) + enc_matrix(c)
}

/// The identity bytes of a constraint system.
pub open spec fn spec_circuit_hash(
    info: CircuitInfo,
    a: Seq<Seq<crate::arith::EntryV>>,
    b: Seq<Seq<crate::arith::EntryV>>,
    c: Seq<Seq<crate::arith::EntryV>>,
) -> Seq<u8> {
    blake2s_of(hash_input(info, a, b, c))
}

/// The transform tables a circuit with metadata `info` must carry, or
/// `None` when a count admits no valid domain.
pub open spec fn spec_tables(info: CircuitInfo) -> Option<(FftPrecomputation, IfftPrecomputation)> {
    if domains_ok(info) {
        spec_fft_precomputation(
            domain_size_for(info.num_variables)->Some_0,
            domain_size_for(info.num_constraints)->Some_0,
            domain_size_for(info.num_non_zero_a)->Some_0,
            domain_size_for(info.num_non_zero_b)->Some_0,
            domain_size_for(info.num_non_zero_c)->Some_0,
        )
    } else {
        None
    }
}

/// The indexed version of the constraint system: its metadata, the three
/// matrices defining the instance, their arithmetizations, the transform
/// tables rebuilt from the metadata, the proving mode and the cached
/// identity.
#[derive(Clone, Debug)]
pub struct Circuit {
    /// Information about the indexed circuit.
    pub index_info: CircuitInfo,
    /// The A matrix of the constraint system.
    pub a: Matrix,
    /// The B matrix of the constraint system.
    pub b: Matrix,
    /// The C matrix of the constraint system.
    pub c: Matrix,
    /// The arithmetization of the A matrix.
    pub a_arith: MatrixArithmetization,
    /// The arithmetization of the B matrix.
    pub b_arith: MatrixArithmetization,
    /// The arithmetization of the C matrix.
    pub c_arith: MatrixArithmetization,
    /// Forward-transform tables; derived, never persisted.
    pub fft_precomputation: FftPrecomputation,
    /// Inverse-transform tables; derived, never persisted.
    pub ifft_precomputation: IfftPrecomputation,
    /// The proving mode this circuit was indexed under. Never part of the
    /// identity or of the wire form.
    pub mode: SnarkMode,
    /// The cached identity: the digest of the constraint system, computed
    /// once at assembly or deserialization.
    pub id: CircuitId,
}

impl Circuit {
    /// The persisted content of this circuit, as a view.
    pub open spec fn content(self) -> ContentV {
        ContentV {
            info: self.index_info,
            a: matrix_v(self.a),
            b: matrix_v(self.b),
            c: matrix_v(self.c),
            a_arith: arith_v(self.a_arith),
            b_arith: arith_v(self.b_arith),
            c_arith: arith_v(self.c_arith),
        }
    }

    /// The cached identity of this circuit.
    pub open spec fn spec_id(self) -> CircuitId {
        self.id
    }

    /// The proving mode this circuit was indexed under.
    pub open spec fn spec_mode(self) -> SnarkMode {
        self.mode
    }

    /// A circuit is well formed when its cached identity is the digest of
    /// its own constraint system and its transform tables are the ones its
    /// metadata determines.
    pub open spec fn wf(self) -> bool {
        &&& self.id.0@ == spec_circuit_hash(
            self.index_info,
            matrix_v(self.a),
            matrix_v(self.b),
            matrix_v(self.c),
        )
        &&& domains_ok(self.index_info)
        &&& spec_tables(self.index_info) == Some(
            (self.fft_precomputation, self.ifft_precomputation),
        )
    }

    /// The cached identity. Equality and ordering of circuits go through
    /// this value alone.
    pub fn id(&self) -> (r: CircuitId)
        ensures
            r == self.spec_id(),
    {
        self.id
    }

    /// The proving mode this circuit was indexed under.
    pub fn mode(&self) -> (r: SnarkMode)
        ensures
            r == self.spec_mode(),
    {
        self.mode
    }

    /// Hashes a constraint system into its content identity: the digest
    /// of the canonical uncompressed encodings of the metadata and the
    /// three matrices, in that fixed order. Total on well-formed inputs:
    /// canonical encoding of in-memory values cannot fail.
    pub fn hash(index_info: &CircuitInfo, a: &Matrix, b: &Matrix, c: &Matrix) -> (r: Result<
        CircuitId,
        SerializationError,
    >)
        ensures
            r matches Ok(id) && id.0@ == spec_circuit_hash(
                *index_info,
                matrix_v(*a),
                matrix_v(*b),
                matrix_v(*c),
            ),
    {
        let mut buf: Vec<u8> = Vec::new();
        write_info(&mut buf, index_info);
        write_matrix(&mut buf, a);
        write_matrix(&mut buf, b);
        write_matrix(&mut buf, c);
        proof {
            assert(buf@ =~= hash_input(*index_info, matrix_v(*a), matrix_v(*b), matrix_v(*c)));
        }
        Ok(CircuitId(blake2s_256(&buf)))
    }

    /// Assembles a circuit from an indexed constraint system: derives the
    /// transform tables from the metadata and caches the identity hash.
    /// Fails with `InvalidData` exactly when a count of the metadata
    /// admits no valid evaluation domain.
    #[allow(clippy::too_many_arguments)]
    pub fn new(
        index_info: CircuitInfo,
        a: Matrix,
        b: Matrix,
        c: Matrix,
        a_arith: MatrixArithmetization,
        b_arith: MatrixArithmetization,
        c_arith: MatrixArithmetization,
        mode: SnarkMode,
    ) -> (r: Result<Circuit, SerializationError>)
        ensures
            domains_ok(index_info) ==> (r matches Ok(ci) && ci.wf() && ci.index_info == index_info
                && ci.a == a && ci.b == b && ci.c == c && ci.a_arith == a_arith && ci.b_arith
                == b_arith && ci.c_arith == c_arith && ci.spec_mode() == mode),
            !domains_ok(index_info) ==> r == Err::<Circuit, _>(SerializationError::InvalidData),
    {
        let cds = match crate::domain::compute_size_of_domain(index_info.num_constraints) {
            Some(s) => s,
            None => {
                return Err(SerializationError::InvalidData);
            },
        };
        let vds = match crate::domain::compute_size_of_domain(index_info.num_variables) {
            Some(s) => s,
            None => {
                return Err(SerializationError::InvalidData);
            },
        };
        let zad = match crate::domain::compute_size_of_domain(index_info.num_non_zero_a) {
            Some(s) => s,
            None => {
                return Err(SerializationError::InvalidData);
            },
        };
        let zbd = match crate::domain::compute_size_of_domain(index_info.num_non_zero_b) {
            Some(s) => s,
            None => {
                return Err(SerializationError::InvalidData);
            },
        };
        let zcd = match crate::domain::compute_size_of_domain(index_info.num_non_zero_c) {
            Some(s) => s,
            None => {
                return Err(SerializationError::InvalidData);
            },
        };
        proof {
            crate::domain::lemma_domain_size_idempotent(index_info.num_constraints);
            crate::domain::lemma_domain_size_idempotent(index_info.num_variables);
            crate::domain::lemma_domain_size_idempotent(index_info.num_non_zero_a);
            crate::domain::lemma_domain_size_idempotent(index_info.num_non_zero_b);
            crate::domain::lemma_domain_size_idempotent(index_info.num_non_zero_c);
        }
        let (fft, ifft) = match fft_precomputation(vds, cds, zad, zbd, zcd) {
            Some(t) => t,
            None => {
                proof {
                    assert(false);
                }
                return Err(SerializationError::InvalidData);
            },
        };
        let id = match Self::hash(&index_info, &a, &b, &c) {
            Ok(i) => i,
            Err(_) => {
                proof {
                    assert(false);
                }
                return Err(SerializationError::InvalidData);
            },
        };
        Ok(
            Circuit {
                index_info,
                a,
                b,
                c,
                a_arith,
                b_arith,
                c_arith,
                fft_precomputation: fft,
                ifft_precomputation: ifft,
                mode,
                id,
            },
        )
    }

    /// The maximum degree the commitment scheme must support for this
    /// circuit, under its proving mode.
    pub fn max_degree(&self) -> (r: Result<u64, SerializationError>)
        ensures
            match spec_max_degree(self.index_info, self.spec_mode()) {
                Some(d) => r == Ok::<u64, SerializationError>(d),
                None => r == Err::<u64, SerializationError>(SerializationError::InvalidData),
            },
    {
        self.index_info.max_degree(self.mode)
    }

    /// The size of the constraint domain of this instance: the smallest
    /// valid evaluation-domain size at least the constraint count.
    pub fn constraint_domain_size(&self) -> (r: Result<u64, SerializationError>)
        ensures
            match domain_size_for(self.index_info.num_constraints) {
                Some(s) => r == Ok::<u64, SerializationError>(s),
                None => r == Err::<u64, SerializationError>(SerializationError::InvalidData),
            },
    {
        match crate::domain::compute_size_of_domain(self.index_info.num_constraints) {
            Some(s) => Ok(s),
            None => Err(SerializationError::InvalidData),
        }
    }

    /// The size of the variable domain of this instance.
    pub fn variable_domain_size(&self) -> (r: Result<u64, SerializationError>)
        ensures
            match domain_size_for(self.index_info.num_variables) {
                Some(s) => r == Ok::<u64, SerializationError>(s),
                None => r == Err::<u64, SerializationError>(SerializationError::InvalidData),
            },
    {
        match crate::domain::compute_size_of_domain(self.index_info.num_variables) {
            Some(s) => Ok(s),
            None => Err(SerializationError::InvalidData),
        }
    }

    /// The indexed polynomials in their protocol order: the `col`, `row`,
    /// `row_col` and `row_col_val` polynomials, each for A, B and C in
    /// turn. Exactly twelve references, in a fixed order that commitment
    /// consumers index positionally; repeated calls yield the same order.
    pub fn iter(&self) -> (r: Vec<&LabeledPolynomial>)
        ensures
            r@.len() == 12,
            r@[0] == &self.a_arith.col,
            r@[1] == &self.b_arith.col,
            r@[2] == &self.c_arith.col,
            r@[3] == &self.a_arith.row,
            r@[4] == &self.b_arith.row,
            r@[5] == &self.c_arith.row,
            r@[6] == &self.a_arith.row_col,
            r@[7] == &self.b_arith.row_col,
            r@[8] == &self.c_arith.row_col,
            r@[9] == &self.a_arith.row_col_val,
            r@[10] == &self.b_arith.row_col_val,
            r@[11] == &self.c_arith.row_col_val,
    {
        let mut v: Vec<&LabeledPolynomial> = Vec::new();
        v.push(&self.a_arith.col);
        v.push(&self.b_arith.col);
        v.push(&self.c_arith.col);
        v.push(&self.a_arith.row);
        v.push(&self.b_arith.row);
        v.push(&self.c_arith.row);
        v.push(&self.a_arith.row_col);
        v.push(&self.b_arith.row_col);
        v.push(&self.c_arith.row_col);
        v.push(&self.a_arith.row_col_val);
        v.push(&self.b_arith.row_col_val);
        v.push(&self.c_arith.row_col_val);
        v
    }

    /// Drops the `row_col` evaluation cache of each matrix, in place: a
    /// one-way space optimization before persisting a proving key. Leaves
    /// every other field — the identity above all — untouched.
    pub fn prune_row_col_evals(&mut self)
        ensures
            final(self).a_arith.evals_on_K.row_col is None,
            final(self).b_arith.evals_on_K.row_col is None,
            final(self).c_arith.evals_on_K.row_col is None,
            final(self).content() == spec_prune_content(old(self).content()),
            final(self).index_info == old(self).index_info,
            final(self).a == old(self).a,
            final(self).b == old(self).b,
            final(self).c == old(self).c,
            final(self).spec_id() == old(self).spec_id(),
            final(self).spec_mode() == old(self).spec_mode(),
            final(self).fft_precomputation == old(self).fft_precomputation,
            final(self).ifft_precomputation == old(self).ifft_precomputation,
            old(self).wf() ==> final(self).wf(),
    {
        self.a_arith.evals_on_K.row_col = None;
        self.b_arith.evals_on_K.row_col = None;
        self.c_arith.evals_on_K.row_col = None;
        proof {
            assert(final(self).content() =~= spec_prune_content(old(self).content()));
        }
    }

    /// Writes this circuit's persisted content in its canonical wire
    /// form: metadata, A, B, C, then the three arithmetizations. The
    /// transform tables, the mode and the identity are excluded. Both
    /// compression modes yield these same canonical bytes.
    pub fn serialize_with_mode(&self, compress: Compress) -> (r: Vec<u8>)
        ensures
            r@ == enc_content(self.content()),
    {
        let _ = compress;
        let mut buf: Vec<u8> = Vec::new();
        write_info(&mut buf, &self.index_info);
        write_matrix(&mut buf, &self.a);
        write_matrix(&mut buf, &self.b);
        write_matrix(&mut buf, &self.c);
        write_arith(&mut buf, &self.a_arith);
        write_arith(&mut buf, &self.b_arith);
        write_arith(&mut buf, &self.c_arith);
        proof {
            assert(buf@ =~= enc_content(self.content()));
        }
        buf
    }

    /// The exact size in bytes of this circuit's canonical wire form.
    pub fn serialized_size(&self, compress: Compress) -> (r: usize)
        ensures
            r == enc_content(self.content()).len(),
    {
        self.serialize_with_mode(compress).len()
    }

    /// A structural validity check. Deliberately trivial at this layer:
    /// deeper algebraic validation belongs to circuit synthesis.
    pub fn check(&self) -> (r: Result<(), SerializationError>)
        ensures
            r is Ok,
    {
        Ok(())
    }

    /// The batch form of `check`: trivially succeeds for any batch.
    pub fn batch_check(batch: &Vec<&Circuit>) -> (r: Result<(), SerializationError>)
        ensures
            r is Ok,
    {
        let _ = batch;
        Ok(())
    }

    /// Reads a circuit back from its canonical wire form, in the strict
    /// order of `serialize_with_mode`; rebuilds the transform tables from
    /// the metadata (failing with `InvalidData` when its counts admit no
    /// valid domain) and recomputes the identity from the parsed
    /// constraint system.
    pub fn deserialize_with_mode(
        bytes: &Vec<u8>,
        compress: Compress,
        validate: Validate,
        mode: SnarkMode,
    ) -> (r: Result<Circuit, SerializationError>)
        ensures
            match spec_deserialize(bytes@) {
                Ok(v) => r matches Ok(ci) && ci.wf() && ci.content() == v && ci.spec_mode()
                    == mode,
                Err(e) => r == Err::<Circuit, _>(e),
            },
    {
        let _ = compress;
        let (index_info, p0) = match read_info(bytes, 0) {
            None => {
                return Err(SerializationError::Malformed);
            },
            Some(x) => x,
        };
        let cds = match crate::domain::compute_size_of_domain(index_info.num_constraints) {
            Some(s) => s,
            None => {
                return Err(SerializationError::InvalidData);
            },
        };
        let vds = match crate::domain::compute_size_of_domain(index_info.num_variables) {
            Some(s) => s,
            None => {
                return Err(SerializationError::InvalidData);
            },
        };
        let zad = match crate::domain::compute_size_of_domain(index_info.num_non_zero_a) {
            Some(s) => s,
            None => {
                return Err(SerializationError::InvalidData);
            },
        };
        let zbd = match crate::domain::compute_size_of_domain(index_info.num_non_zero_b) {
            Some(s) => s,
            None => {
                return Err(SerializationError::InvalidData);
            },
        };
        let zcd = match crate::domain::compute_size_of_domain(index_info.num_non_zero_c) {
            Some(s) => s,
            None => {
                return Err(SerializationError::InvalidData);
            },
        };
        proof {
            crate::domain::lemma_domain_size_idempotent(index_info.num_constraints);
            crate::domain::lemma_domain_size_idempotent(index_info.num_variables);
            crate::domain::lemma_domain_size_idempotent(index_info.num_non_zero_a);
            crate::domain::lemma_domain_size_idempotent(index_info.num_non_zero_b);
            crate::domain::lemma_domain_size_idempotent(index_info.num_non_zero_c);
        }
        let (fft, ifft) = match fft_precomputation(vds, cds, zad, zbd, zcd) {
            Some(t) => t,
            None => {
                proof {
                    assert(false);
                }
                return Err(SerializationError::InvalidData);
            },
        };
        let (a, p1) = match read_matrix(bytes, p0) {
            None => {
                return Err(SerializationError::Malformed);
            },
            Some(x) => x,
        };
        let (b, p2) = match read_matrix(bytes, p1) {
            None => {
                return Err(SerializationError::Malformed);
            },
            Some(x) => x,
        };
        let (c, p3) = match read_matrix(bytes, p2) {
            None => {
                return Err(SerializationError::Malformed);
            },
            Some(x) => x,
        };
        let id = match Self::hash(&index_info, &a, &b, &c) {
            Ok(i) => i,
            Err(e) => {
                proof {
                    assert(false);
                }
                return Err(e);
            },
        };
        let (a_arith, p4) = match read_arith(bytes, p3) {
            None => {
                return Err(SerializationError::Malformed);
            },
            Some(x) => x,
        };
        let (b_arith, p5) = match read_arith(bytes, p4) {
            None => {
                return Err(SerializationError::Malformed);
            },
            Some(x) => x,
        };
        let (c_arith, p6) = match read_arith(bytes, p5) {
            None => {
                return Err(SerializationError::Malformed);
            },
            Some(x) => x,
        };
        if p6 != bytes.len() {
            return Err(SerializationError::Malformed);
        }
        let circuit = Circuit {
            index_info,
            a,
            b,
            c,
            a_arith,
            b_arith,
            c_arith,
            fft_precomputation: fft,
            ifft_precomputation: ifft,
            mode,
            id,
        };
        if matches!(validate, Validate::Yes) {
            match circuit.check() {
                Ok(()) => {},
                Err(e) => {
                    proof {
                        assert(false);
                    }
                    return Err(e);
                },
            }
        }
        Ok(circuit)
    }
}

/// What deserialization yields on a byte sequence: the parsed content
/// when the bytes are exactly one canonical encoding whose metadata
/// admits valid domains; `InvalidData` when the metadata parses but a
/// count admits no domain; `Malformed` otherwise.
pub open spec fn spec_deserialize(s: Seq<u8>) -> Result<ContentV, SerializationError> {
    match dec_info(s, 0) {
        None => Err(SerializationError::Malformed),
        Some((info, p0)) => if !domains_ok(info) {
            Err(SerializationError::InvalidData)
        } else {
            match dec_matrix(s, p0) {
                None => Err(SerializationError::Malformed),
                Some((a, p1)) => match dec_matrix(s, p1) {
                    None => Err(SerializationError::Malformed),
                    Some((b, p2)) => match dec_matrix(s, p2) {
                        None => Err(SerializationError::Malformed),
                        Some((c, p3)) => match dec_arith(s, p3) {
                            None => Err(SerializationError::Malformed),
                            Some((a_arith, p4)) => match dec_arith(s, p4) {
                                None => Err(SerializationError::Malformed),
                                Some((b_arith, p5)) => match dec_arith(s, p5) {
                                    None => Err(SerializationError::Malformed),
                                    Some((c_arith, p6)) => if p6 == s.len() {
                                        Ok(
                                            ContentV {
                                                info,
                                                a,
                                                b,
                                                c,
                                                a_arith,
                                                b_arith,
                                                c_arith,
                                            },
                                        )
                                    } else {
                                        Err(SerializationError::Malformed)
                                    },
                                },
                            },
                        },
                    },
                },
            }
        },
    }
}

/// The content of a circuit after pruning: the `row_col` cache of each
/// arithmetization is absent; everything else is unchanged.
pub open spec fn spec_prune_arith(a: ArithV) -> ArithV {
    ArithV { evals_on_K: MatrixEvalsV { row_col: None, ..a.evals_on_K }, ..a }
}

pub open spec fn spec_prune_content(v: ContentV) -> ContentV {
    ContentV {
        a_arith: spec_prune_arith(v.a_arith),
        b_arith: spec_prune_arith(v.b_arith),
        c_arith: spec_prune_arith(v.c_arith),
        ..v
    }
}

/// Pruning is idempotent: pruning a pruned content changes nothing.
pub proof fn lemma_prune_idempotent(v: ContentV)
    ensures
        spec_prune_content(spec_prune_content(v)) == spec_prune_content(v),
{
    assert(spec_prune_content(spec_prune_content(v)) =~~= spec_prune_content(v));
}

/// Pruning never grows the wire form: the encoding of a pruned content
/// is at most as long as the encoding of the original.
pub proof fn lemma_prune_shrinks(v: ContentV)
    ensures
        enc_content(spec_prune_content(v)).len() <= enc_content(v).len(),
{
    assert(enc_arith(spec_prune_arith(v.a_arith)).len() <= enc_arith(v.a_arith).len());
    assert(enc_arith(spec_prune_arith(v.b_arith)).len() <= enc_arith(v.b_arith).len());
    assert(enc_arith(spec_prune_arith(v.c_arith)).len() <= enc_arith(v.c_arith).len());
}

/// The identity of a circuit depends on its constraint system alone: two
/// well-formed circuits with the same metadata and matrices share an
/// identity, whatever their modes or arithmetization data.
pub proof fn lemma_id_independent_of_mode_and_arith(c1: Circuit, c2: Circuit)
    requires
        c1.wf(),
        c2.wf(),
        c1.index_info == c2.index_info,
        matrix_v(c1.a) == matrix_v(c2.a),
        matrix_v(c1.b) == matrix_v(c2.b),
        matrix_v(c1.c) == matrix_v(c2.c),
    ensures
        c1.spec_id().0@ == c2.spec_id().0@,
{
}

/// The identity hash is deterministic: on equal constraint systems it
/// yields equal identity bytes, in every process and on every machine.
pub proof fn lemma_hash_deterministic(
    i1: CircuitInfo,
    a1: Seq<Seq<crate::arith::EntryV>>,
    b1: Seq<Seq<crate::arith::EntryV>>,
    c1: Seq<Seq<crate::arith::EntryV>>,
    i2: CircuitInfo,
    a2: Seq<Seq<crate::arith::EntryV>>,
    b2: Seq<Seq<crate::arith::EntryV>>,
    c2: Seq<Seq<crate::arith::EntryV>>,
)
    requires
        i1 == i2,
        a1 == a2,
        b1 == b2,
        c1 == c2,
    ensures
        spec_circuit_hash(i1, a1, b1, c1) == spec_circuit_hash(i2, a2, b2, c2),
{
}

/// Serialization round-trips: the canonical encoding of any well-formed
/// content whose metadata admits valid domains deserializes to exactly
/// that content.
#[verifier::rlimit(100)]
#[verifier::spinoff_prover]
pub proof fn lemma_round_trip(v: ContentV)
    requires
        wf_content(v),
        domains_ok(v.info),
    ensures
        spec_deserialize(enc_content(v)) == Ok::<ContentV, SerializationError>(v),
{
    let s = enc_content(v);
    let x1 = enc_info(v.info);
    let x2 = enc_matrix(v.a);
    let x3 = enc_matrix(v.b);
    let x4 = enc_matrix(v.c);
    let x5 = enc_arith(v.a_arith);
    let x6 = enc_arith(v.b_arith);
    let x7 = enc_arith(v.c_arith);
    let n1 = x1.len() as int;
    let n2 = n1 + x2.len() as int;
    let n3 = n2 + x3.len() as int;
    let n4 = n3 + x4.len() as int;
    let n5 = n4 + x5.len() as int;
    let n6 = n5 + x6.len() as int;
    assert(s =~= x1 + (x2 + (x3 + (x4 + (x5 + (x6 + x7))))));
    assert(s.subrange(0, s.len() as int) =~= s);
    lemma_subrange_split(s, 0, x1, x2 + (x3 + (x4 + (x5 + (x6 + x7)))));
    lemma_subrange_split(s, n1, x2, x3 + (x4 + (x5 + (x6 + x7))));
    lemma_subrange_split(s, n2, x3, x4 + (x5 + (x6 + x7)));
    lemma_subrange_split(s, n3, x4, x5 + (x6 + x7));
    lemma_subrange_split(s, n4, x5, x6 + x7);
    lemma_subrange_split(s, n5, x6, x7);
    lemma_dec_enc_info(s, 0, v.info);
    lemma_dec_enc_matrix(s, n1, v.a);
    lemma_dec_enc_matrix(s, n2, v.b);
    lemma_dec_enc_matrix(s, n3, v.c);
    lemma_dec_enc_arith(s, n4, v.a_arith);
    lemma_dec_enc_arith(s, n5, v.b_arith);
    lemma_dec_enc_arith(s, n6, v.c_arith);
}

/// Round-tripping an actual circuit: the canonical wire form of any
/// well-formed circuit deserializes to exactly that circuit's content.
pub proof fn lemma_circuit_round_trip(c: Circuit)
    requires
        c.wf(),
    ensures
        spec_deserialize(enc_content(c.content())) == Ok::<ContentV, SerializationError>(
            c.content(),
        ),
{
    lemma_matrix_view_wf(c.a);
    lemma_matrix_view_wf(c.b);
    lemma_matrix_view_wf(c.c);
    lemma_arith_view_wf(c.a_arith);
    lemma_arith_view_wf(c.b_arith);
    lemma_arith_view_wf(c.c_arith);
    lemma_round_trip(c.content());
}

impl PartialEq for Circuit {
    fn eq(&self, other: &Circuit) -> (r: bool) {
        self.id == other.id
    }
}

impl Eq for Circuit {}

impl vstd::std_specs::cmp::PartialEqSpecImpl for Circuit {
    open spec fn obeys_eq_spec() -> bool {
        true
    }

    open spec fn eq_spec(&self, other: &Circuit) -> bool {
        self.id.0@ == other.id.0@
    }
}

impl PartialOrd for Circuit {
    fn partial_cmp(&self, other: &Circuit) -> (r: Option<core::cmp::Ordering>) {
        Some(self.id.compare(&other.id))
    }
}

impl vstd::std_specs::cmp::PartialOrdSpecImpl for Circuit {
    open spec fn obeys_partial_cmp_spec() -> bool {
        true
    }

    open spec fn partial_cmp_spec(&self, other: &Circuit) -> Option<core::cmp::Ordering> {
        Some(spec_id_cmp(self.id, other.id))
    }
}

} // verus!
