//! The data consumed and produced by indexing: sparse matrices over the
//! field, and the per-matrix arithmetization bundles (labeled polynomials
//! plus an optional evaluation cache).
//!
//! Each executable type has a ghost view used by the contracts: a field
//! element views as its canonical byte sequence, and the aggregates view
//! as sequences and records over those.

use crate::field::FieldElement;
use vstd::prelude::*;

verus! {

/// One non-zero entry of a sparse matrix: a coefficient and its column.
/// Equality is structural.
#[derive(Clone, Copy, Debug, PartialEq, Eq)]
pub struct MatrixEntry {
    pub coeff: FieldElement,
    pub column: u64,
}

/// A sparse matrix over the field: one entry list per row.
pub type Matrix = Vec<Vec<MatrixEntry>>;

/// A polynomial under a label, as handed to the commitment scheme.
#[derive(Clone, Debug)]
pub struct LabeledPolynomial {
    /// The label bytes that identify this polynomial to the commitment scheme.
    pub label: Vec<u8>,
    /// The coefficients of the polynomial, low degree first.
    pub coeffs: Vec<FieldElement>,
}

/// Precomputed point evaluations of the arithmetization polynomials over
/// the non-zero domain K. The `row_col` table is a proving-time shortcut
/// and may be pruned; the others are always present.
#[allow(non_snake_case)]
#[derive(Clone, Debug)]
pub struct MatrixEvals {
    pub row: Vec<FieldElement>,
    pub col: Vec<FieldElement>,
    pub row_col: Option<Vec<FieldElement>>,
}

/// The arithmetization of one matrix: four labeled polynomials and the
/// evaluation cache over domain K.
#[allow(non_snake_case)]
#[derive(Clone, Debug)]
pub struct MatrixArithmetization {
    pub row: LabeledPolynomial,
    pub col: LabeledPolynomial,
    pub row_col: LabeledPolynomial,
    pub row_col_val: LabeledPolynomial,
    pub evals_on_K: MatrixEvals,
}

/// Ghost view of a matrix entry.
pub ghost struct EntryV {
    pub coeff: Seq<u8>,
    pub column: u64,
}

/// Ghost view of a labeled polynomial.
#[verifier::ext_equal]
pub ghost struct PolyV {
    pub label: Seq<u8>,
    pub coeffs: Seq<Seq<u8>>,
}

/// Ghost view of an evaluation cache.
#[allow(non_snake_case)]
#[verifier::ext_equal]
pub ghost struct MatrixEvalsV {
    pub row: Seq<Seq<u8>>,
    pub col: Seq<Seq<u8>>,
    pub row_col: Option<Seq<Seq<u8>>>,
}

/// Ghost view of a matrix arithmetization.
#[allow(non_snake_case)]
#[verifier::ext_equal]
pub ghost struct ArithV {
    pub row: PolyV,
    pub col: PolyV,
    pub row_col: PolyV,
    pub row_col_val: PolyV,
    pub evals_on_K: MatrixEvalsV,
}

pub open spec fn entry_v(e: MatrixEntry) -> EntryV {
    EntryV { coeff: e.coeff.repr@, column: e.column }
}

pub open spec fn row_v(r: Seq<MatrixEntry>) -> Seq<EntryV> {
    r.map_values(|e: MatrixEntry| entry_v(e))
}

pub open spec fn rows_of(s: Seq<Vec<MatrixEntry>>) -> Seq<Seq<EntryV>> {
    s.map_values(|row: Vec<MatrixEntry>| row_v(row@))
}

pub open spec fn matrix_v(m: Matrix) -> Seq<Seq<EntryV>> {
    rows_of(m@)
}

pub open spec fn fes_v(v: Seq<FieldElement>) -> Seq<Seq<u8>> {
    v.map_values(|f: FieldElement| f.repr@)
}

pub open spec fn poly_v(p: LabeledPolynomial) -> PolyV {
    PolyV { label: p.label@, coeffs: fes_v(p.coeffs@) }
}

pub open spec fn evals_v(e: MatrixEvals) -> MatrixEvalsV {
    MatrixEvalsV {
        row: fes_v(e.row@),
        col: fes_v(e.col@),
        row_col: match e.row_col {
            Some(v) => Some(fes_v(v@)),
            None => None,
        },
    }
}

pub open spec fn arith_v(a: MatrixArithmetization) -> ArithV {
    ArithV {
        row: poly_v(a.row),
        col: poly_v(a.col),
        row_col: poly_v(a.row_col),
        row_col_val: poly_v(a.row_col_val),
        evals_on_K: evals_v(a.evals_on_K),
    }
}

/// Well-formedness of view-level values: every field element holds exactly
/// its canonical 32 bytes, and every length fits the wire's length words.
pub open spec fn wf_fe_v(f: Seq<u8>) -> bool {
    f.len() == 32
}

pub open spec fn wf_entry_v(e: EntryV) -> bool {
    wf_fe_v(e.coeff)
}

pub open spec fn wf_row_v(r: Seq<EntryV>) -> bool {
    &&& r.len() <= u64::MAX
    &&& forall|i: int| 0 <= i < r.len() ==> wf_entry_v(#[trigger] r[i])
}

pub open spec fn wf_matrix_v(m: Seq<Seq<EntryV>>) -> bool {
    &&& m.len() <= u64::MAX
    &&& forall|i: int| 0 <= i < m.len() ==> wf_row_v(#[trigger] m[i])
}

pub open spec fn wf_fes_v(v: Seq<Seq<u8>>) -> bool {
    &&& v.len() <= u64::MAX
    &&& forall|i: int| 0 <= i < v.len() ==> wf_fe_v(#[trigger] v[i])
}

pub open spec fn wf_poly_v(p: PolyV) -> bool {
    &&& p.label.len() <= u64::MAX
    &&& wf_fes_v(p.coeffs)
}

pub open spec fn wf_evals_v(e: MatrixEvalsV) -> bool {
    &&& wf_fes_v(e.row)
    &&& wf_fes_v(e.col)
    &&& match e.row_col {
        Some(v) => wf_fes_v(v),
        None => true,
    }
}

pub open spec fn wf_arith_v(a: ArithV) -> bool {
    &&& wf_poly_v(a.row)
    &&& wf_poly_v(a.col)
    &&& wf_poly_v(a.row_col)
    &&& wf_poly_v(a.row_col_val)
    &&& wf_evals_v(a.evals_on_K)
}

/// The views of real values are always well formed: the representation
/// types fix the element width, and in-memory lengths fit a length word.
pub proof fn lemma_matrix_view_wf(m: Matrix)
    ensures
        wf_matrix_v(matrix_v(m)),
{
    broadcast use vstd::std_specs::vec::axiom_spec_len;

    assert(m.len() == m@.len());
    assert forall|i: int| 0 <= i < matrix_v(m).len() implies wf_row_v(#[trigger] matrix_v(m)[i]) by {
        let vrow = m@[i];
        assert(vrow.len() == vrow@.len());
        assert(matrix_v(m)[i] == row_v(vrow@));
        assert forall|j: int| 0 <= j < row_v(vrow@).len() implies wf_entry_v(
            #[trigger] row_v(vrow@)[j],
        ) by {
            assert(row_v(vrow@)[j] == entry_v(vrow@[j]));
        }
    }
}

pub proof fn lemma_fes_view_wf(v: Vec<FieldElement>)
    ensures
        wf_fes_v(fes_v(v@)),
{
    broadcast use vstd::std_specs::vec::axiom_spec_len;

    assert(v.len() == v@.len());
    assert forall|i: int| 0 <= i < fes_v(v@).len() implies wf_fe_v(#[trigger] fes_v(v@)[i]) by {
        assert(fes_v(v@)[i] == v@[i].repr@);
    }
}

pub proof fn lemma_poly_view_wf(p: LabeledPolynomial)
    ensures
        wf_poly_v(poly_v(p)),
{
    broadcast use vstd::std_specs::vec::axiom_spec_len;

    assert(p.label.len() == p.label@.len());
    lemma_fes_view_wf(p.coeffs);
}

pub proof fn lemma_arith_view_wf(a: MatrixArithmetization)
    ensures
        wf_arith_v(arith_v(a)),
{
    lemma_poly_view_wf(a.row);
    lemma_poly_view_wf(a.col);
    lemma_poly_view_wf(a.row_col);
    lemma_poly_view_wf(a.row_col_val);
    lemma_fes_view_wf(a.evals_on_K.row);
    lemma_fes_view_wf(a.evals_on_K.col);
    match a.evals_on_K.row_col {
        Some(v) => {
            lemma_fes_view_wf(v);
        },
        None => {},
    }
}

} // verus!
