//! The canonical wire form of circuit data, specified byte for byte.
//!
//! `enc_*` gives the encoding of each component as a byte sequence;
//! `dec_*` is the deterministic parser of that encoding, returning the
//! decoded view and the position after it, or `None` where the bytes do
//! not hold a canonical encoding. The `lemma_dec_enc_*` family proves
//! that decoding inverts encoding, which is what the deserializer's
//! round-trip guarantee rests on.
//!
//! Lengths are 64-bit little-endian words; field elements are their raw
//! canonical 32 bytes; an optional table is a one-byte presence tag
//! followed by the table.

use crate::arith::{
    wf_arith_v, wf_entry_v, wf_evals_v, wf_fe_v, wf_fes_v, wf_matrix_v, wf_poly_v, wf_row_v,
    ArithV, EntryV, MatrixEvalsV, PolyV,
};
use crate::info::CircuitInfo;
use vstd::bytes::{lemma_auto_spec_u64_to_from_le_bytes, spec_u64_from_le_bytes, spec_u64_to_le_bytes};
use vstd::prelude::*;

verus! {

pub open spec fn enc_u64(x: u64) -> Seq<u8> {
    spec_u64_to_le_bytes(x)
}

pub open spec fn enc_entry(e: EntryV) -> Seq<u8> {
    e.coeff + enc_u64(e.column)
}

pub open spec fn enc_entries(s: Seq<EntryV>) -> Seq<u8>
    decreases s.len(),
{
    if s.len() == 0 {
        Seq::empty()
    } else {
        enc_entry(s.first()) + enc_entries(s.drop_first())
    }
}

pub open spec fn enc_row(r: Seq<EntryV>) -> Seq<u8> {
    enc_u64(r.len() as u64) + enc_entries(r)
}

pub open spec fn enc_rows(s: Seq<Seq<EntryV>>) -> Seq<u8>
    decreases s.len(),
{
    if s.len() == 0 {
        Seq::empty()
    } else {
        enc_row(s.first()) + enc_rows(s.drop_first())
    }
}

pub open spec fn enc_matrix(m: Seq<Seq<EntryV>>) -> Seq<u8> {
    enc_u64(m.len() as u64) + enc_rows(m)
}

pub open spec fn enc_fes(s: Seq<Seq<u8>>) -> Seq<u8>
    decreases s.len(),
{
    if s.len() == 0 {
        Seq::empty()
    } else {
        s.first() + enc_fes(s.drop_first())
    }
}

pub open spec fn enc_fes_len(s: Seq<Seq<u8>>) -> Seq<u8> {
    enc_u64(s.len() as u64) + enc_fes(s)
}

pub open spec fn enc_bytes(s: Seq<u8>) -> Seq<u8> {
    enc_u64(s.len() as u64) + s
}

pub open spec fn enc_poly(p: PolyV) -> Seq<u8> {
    enc_bytes(p.label) + enc_fes_len(p.coeffs)
}

pub open spec fn enc_opt_fes(o: Option<Seq<Seq<u8>>>) -> Seq<u8> {
    match o {
        None => seq![0u8],
        Some(s) => seq![1u8] + enc_fes_len(s),
    }
}

pub open spec fn enc_evals(e: MatrixEvalsV) -> Seq<u8> {
    enc_fes_len(e.row) + enc_fes_len(e.col) + enc_opt_fes(e.row_col)
}

pub open spec fn enc_arith(a: ArithV) -> Seq<u8> {
    enc_poly(a.row) + enc_poly(a.col) + enc_poly(a.row_col) + enc_poly(a.row_col_val) + enc_evals(
        a.evals_on_K,
    )
}

pub open spec fn enc_info(i: CircuitInfo) -> Seq<u8> {
    enc_u64(i.num_constraints) + enc_u64(i.num_variables) + enc_u64(i.num_non_zero_a) + enc_u64(
        i.num_non_zero_b,
    ) + enc_u64(i.num_non_zero_c)
}

// ------------------------------------------------------------------
// The parser of the encoding.
// ------------------------------------------------------------------

pub open spec fn dec_u64(s: Seq<u8>, pos: int) -> Option<(u64, int)> {
    if 0 <= pos && pos + 8 <= s.len() {
        Some((spec_u64_from_le_bytes(s.subrange(pos, pos + 8)), pos + 8))
    } else {
        None
    }
}

pub open spec fn dec_u8(s: Seq<u8>, pos: int) -> Option<(u8, int)> {
    if 0 <= pos && pos + 1 <= s.len() {
        Some((s[pos], pos + 1))
    } else {
        None
    }
}

pub open spec fn dec_fe(s: Seq<u8>, pos: int) -> Option<(Seq<u8>, int)> {
    if 0 <= pos && pos + 32 <= s.len() {
        Some((s.subrange(pos, pos + 32), pos + 32))
    } else {
        None
    }
}

pub open spec fn dec_entry(s: Seq<u8>, pos: int) -> Option<(EntryV, int)> {
    match dec_fe(s, pos) {
        None => None,
        Some((coeff, p1)) => match dec_u64(s, p1) {
            None => None,
            Some((column, p2)) => Some((EntryV { coeff, column }, p2)),
        },
    }
}

pub open spec fn dec_entries(s: Seq<u8>, pos: int, n: nat) -> Option<(Seq<EntryV>, int)>
    decreases n,
{
    if n == 0 {
        Some((Seq::empty(), pos))
    } else {
        match dec_entry(s, pos) {
            None => None,
            Some((e, p1)) => match dec_entries(s, p1, (n - 1) as nat) {
                None => None,
                Some((rest, p2)) => Some((seq![e] + rest, p2)),
            },
        }
    }
}

pub open spec fn dec_row(s: Seq<u8>, pos: int) -> Option<(Seq<EntryV>, int)> {
    match dec_u64(s, pos) {
        None => None,
        Some((n, p1)) => dec_entries(s, p1, n as nat),
    }
}

pub open spec fn dec_rows(s: Seq<u8>, pos: int, n: nat) -> Option<(Seq<Seq<EntryV>>, int)>
    decreases n,
{
    if n == 0 {
        Some((Seq::empty(), pos))
    } else {
        match dec_row(s, pos) {
            None => None,
            Some((r, p1)) => match dec_rows(s, p1, (n - 1) as nat) {
                None => None,
                Some((rest, p2)) => Some((seq![r] + rest, p2)),
            },
        }
    }
}

pub open spec fn dec_matrix(s: Seq<u8>, pos: int) -> Option<(Seq<Seq<EntryV>>, int)> {
    match dec_u64(s, pos) {
        None => None,
        Some((n, p1)) => dec_rows(s, p1, n as nat),
    }
}

pub open spec fn dec_fes(s: Seq<u8>, pos: int, n: nat) -> Option<(Seq<Seq<u8>>, int)>
    decreases n,
{
    if n == 0 {
        Some((Seq::empty(), pos))
    } else {
        match dec_fe(s, pos) {
            None => None,
            Some((f, p1)) => match dec_fes(s, p1, (n - 1) as nat) {
                None => None,
                Some((rest, p2)) => Some((seq![f] + rest, p2)),
            },
        }
    }
}

pub open spec fn dec_fes_len(s: Seq<u8>, pos: int) -> Option<(Seq<Seq<u8>>, int)> {
    match dec_u64(s, pos) {
        None => None,
        Some((n, p1)) => dec_fes(s, p1, n as nat),
    }
}

pub open spec fn dec_bytes(s: Seq<u8>, pos: int) -> Option<(Seq<u8>, int)> {
    match dec_u64(s, pos) {
        None => None,
        Some((n, p1)) => if p1 + n <= s.len() {
            Some((s.subrange(p1, p1 + n), p1 + n))
        } else {
            None
        },
    }
}

pub open spec fn dec_poly(s: Seq<u8>, pos: int) -> Option<(PolyV, int)> {
    match dec_bytes(s, pos) {
        None => None,
        Some((label, p1)) => match dec_fes_len(s, p1) {
            None => None,
            Some((coeffs, p2)) => Some((PolyV { label, coeffs }, p2)),
        },
    }
}

pub open spec fn dec_opt_fes(s: Seq<u8>, pos: int) -> Option<(Option<Seq<Seq<u8>>>, int)> {
    match dec_u8(s, pos) {
        None => None,
        Some((tag, p1)) => if tag == 0 {
            Some((None, p1))
        } else if tag == 1 {
            match dec_fes_len(s, p1) {
                None => None,
                Some((v, p2)) => Some((Some(v), p2)),
            }
        } else {
            None
        },
    }
}

pub open spec fn dec_evals(s: Seq<u8>, pos: int) -> Option<(MatrixEvalsV, int)> {
    match dec_fes_len(s, pos) {
        None => None,
        Some((row, p1)) => match dec_fes_len(s, p1) {
            None => None,
            Some((col, p2)) => match dec_opt_fes(s, p2) {
                None => None,
                Some((row_col, p3)) => Some((MatrixEvalsV { row, col, row_col }, p3)),
            },
        },
    }
}

pub open spec fn dec_arith(s: Seq<u8>, pos: int) -> Option<(ArithV, int)> {
    match dec_poly(s, pos) {
        None => None,
        Some((row, p1)) => match dec_poly(s, p1) {
            None => None,
            Some((col, p2)) => match dec_poly(s, p2) {
                None => None,
                Some((row_col, p3)) => match dec_poly(s, p3) {
                    None => None,
                    Some((row_col_val, p4)) => match dec_evals(s, p4) {
                        None => None,
                        Some((evals, p5)) => Some(
                            (ArithV { row, col, row_col, row_col_val, evals_on_K: evals }, p5),
                        ),
                    },
                },
            },
        },
    }
}

pub open spec fn dec_info(s: Seq<u8>, pos: int) -> Option<(CircuitInfo, int)> {
    match dec_u64(s, pos) {
        None => None,
        Some((nc, p1)) => match dec_u64(s, p1) {
            None => None,
            Some((nv, p2)) => match dec_u64(s, p2) {
                None => None,
                Some((za, p3)) => match dec_u64(s, p3) {
                    None => None,
                    Some((zb, p4)) => match dec_u64(s, p4) {
                        None => None,
                        Some((zc, p5)) => Some(
                            (
                                CircuitInfo {
                                    num_constraints: nc,
                                    num_variables: nv,
                                    num_non_zero_a: za,
                                    num_non_zero_b: zb,
                                    num_non_zero_c: zc,
                                },
                                p5,
                            ),
                        ),
                    },
                },
            },
        },
    }
}

// ------------------------------------------------------------------
// Decoding inverts encoding.
// ------------------------------------------------------------------

/// Splits knowledge of a two-part encoding at a position into knowledge
/// of each part at its own position.
pub proof fn lemma_subrange_split(s: Seq<u8>, pos: int, x: Seq<u8>, y: Seq<u8>)
    requires
        0 <= pos,
        pos + x.len() + y.len() <= s.len(),
        s.subrange(pos, pos + x.len() + y.len()) == x + y,
    ensures
        s.subrange(pos, pos + x.len()) == x,
        s.subrange(pos + x.len(), pos + x.len() + y.len()) == y,
{
    let xy = s.subrange(pos, pos + x.len() + y.len());
    assert(s.subrange(pos, pos + x.len()) =~= x) by {
        assert forall|i: int| 0 <= i < x.len() implies s.subrange(pos, pos + x.len())[i] == x[i] by {
            assert(xy[i] == (x + y)[i]);
        }
    }
    assert(s.subrange(pos + x.len(), pos + x.len() + y.len()) =~= y) by {
        assert forall|i: int|
            0 <= i < y.len() implies s.subrange(pos + x.len(), pos + x.len() + y.len())[i]
            == y[i] by {
            assert(xy[x.len() + i] == (x + y)[x.len() + i]);
        }
    }
}

pub proof fn lemma_dec_enc_u64(s: Seq<u8>, pos: int, x: u64)
    requires
        0 <= pos,
        pos + enc_u64(x).len() <= s.len(),
        s.subrange(pos, pos + enc_u64(x).len()) == enc_u64(x),
    ensures
        enc_u64(x).len() == 8,
        dec_u64(s, pos) == Some((x, pos + 8)),
{
    lemma_auto_spec_u64_to_from_le_bytes();
}

pub proof fn lemma_dec_enc_fe(s: Seq<u8>, pos: int, f: Seq<u8>)
    requires
        wf_fe_v(f),
        0 <= pos,
        pos + 32 <= s.len(),
        s.subrange(pos, pos + 32) == f,
    ensures
        dec_fe(s, pos) == Some((f, pos + 32)),
{
}

pub proof fn lemma_dec_enc_entry(s: Seq<u8>, pos: int, e: EntryV)
    requires
        wf_entry_v(e),
        0 <= pos,
        pos + enc_entry(e).len() <= s.len(),
        s.subrange(pos, pos + enc_entry(e).len()) == enc_entry(e),
    ensures
        enc_entry(e).len() == 40,
        dec_entry(s, pos) == Some((e, pos + enc_entry(e).len())),
{
    lemma_auto_spec_u64_to_from_le_bytes();
    lemma_subrange_split(s, pos, e.coeff, enc_u64(e.column));
    lemma_dec_enc_fe(s, pos, e.coeff);
    lemma_dec_enc_u64(s, pos + 32, e.column);
}

pub proof fn lemma_dec_enc_entries(s: Seq<u8>, pos: int, items: Seq<EntryV>)
    requires
        wf_row_v(items),
        0 <= pos,
        pos + enc_entries(items).len() <= s.len(),
        s.subrange(pos, pos + enc_entries(items).len()) == enc_entries(items),
    ensures
        dec_entries(s, pos, items.len()) == Some((items, pos + enc_entries(items).len())),
    decreases items.len(),
{
    if items.len() == 0 {
        assert(items =~= Seq::<EntryV>::empty());
    } else {
        let e = items.first();
        let rest = items.drop_first();
        lemma_subrange_split(s, pos, enc_entry(e), enc_entries(rest));
        lemma_dec_enc_entry(s, pos, e);
        lemma_dec_enc_entries(s, pos + enc_entry(e).len(), rest);
        assert(seq![e] + rest =~= items);
    }
}

pub proof fn lemma_dec_enc_row(s: Seq<u8>, pos: int, r: Seq<EntryV>)
    requires
        wf_row_v(r),
        0 <= pos,
        pos + enc_row(r).len() <= s.len(),
        s.subrange(pos, pos + enc_row(r).len()) == enc_row(r),
    ensures
        dec_row(s, pos) == Some((r, pos + enc_row(r).len())),
{
    lemma_auto_spec_u64_to_from_le_bytes();
    lemma_subrange_split(s, pos, enc_u64(r.len() as u64), enc_entries(r));
    lemma_dec_enc_u64(s, pos, r.len() as u64);
    lemma_dec_enc_entries(s, pos + 8, r);
}

pub proof fn lemma_dec_enc_rows(s: Seq<u8>, pos: int, items: Seq<Seq<EntryV>>)
    requires
        wf_matrix_v(items),
        0 <= pos,
        pos + enc_rows(items).len() <= s.len(),
        s.subrange(pos, pos + enc_rows(items).len()) == enc_rows(items),
    ensures
        dec_rows(s, pos, items.len()) == Some((items, pos + enc_rows(items).len())),
    decreases items.len(),
{
    if items.len() == 0 {
        assert(items =~= Seq::<Seq<EntryV>>::empty());
    } else {
        let r = items.first();
        let rest = items.drop_first();
        lemma_subrange_split(s, pos, enc_row(r), enc_rows(rest));
        lemma_dec_enc_row(s, pos, r);
        assert(wf_matrix_v(rest)) by {
            assert(forall|i: int| 0 <= i < rest.len() ==> rest[i] == items[i + 1]);
        }
        lemma_dec_enc_rows(s, pos + enc_row(r).len(), rest);
        assert(seq![r] + rest =~= items);
    }
}

pub proof fn lemma_dec_enc_matrix(s: Seq<u8>, pos: int, m: Seq<Seq<EntryV>>)
    requires
        wf_matrix_v(m),
        0 <= pos,
        pos + enc_matrix(m).len() <= s.len(),
        s.subrange(pos, pos + enc_matrix(m).len()) == enc_matrix(m),
    ensures
        dec_matrix(s, pos) == Some((m, pos + enc_matrix(m).len())),
{
    lemma_auto_spec_u64_to_from_le_bytes();
    lemma_subrange_split(s, pos, enc_u64(m.len() as u64), enc_rows(m));
    lemma_dec_enc_u64(s, pos, m.len() as u64);
    lemma_dec_enc_rows(s, pos + 8, m);
}

pub proof fn lemma_dec_enc_fes(s: Seq<u8>, pos: int, items: Seq<Seq<u8>>)
    requires
        wf_fes_v(items),
        0 <= pos,
        pos + enc_fes(items).len() <= s.len(),
        s.subrange(pos, pos + enc_fes(items).len()) == enc_fes(items),
    ensures
        dec_fes(s, pos, items.len()) == Some((items, pos + enc_fes(items).len())),
    decreases items.len(),
{
    if items.len() == 0 {
        assert(items =~= Seq::<Seq<u8>>::empty());
    } else {
        let f = items.first();
        let rest = items.drop_first();
        lemma_subrange_split(s, pos, f, enc_fes(rest));
        lemma_dec_enc_fe(s, pos, f);
        assert(wf_fes_v(rest)) by {
            assert(forall|i: int| 0 <= i < rest.len() ==> rest[i] == items[i + 1]);
        }
        lemma_dec_enc_fes(s, pos + f.len(), rest);
        assert(seq![f] + rest =~= items);
    }
}

pub proof fn lemma_dec_enc_fes_len(s: Seq<u8>, pos: int, items: Seq<Seq<u8>>)
    requires
        wf_fes_v(items),
        0 <= pos,
        pos + enc_fes_len(items).len() <= s.len(),
        s.subrange(pos, pos + enc_fes_len(items).len()) == enc_fes_len(items),
    ensures
        dec_fes_len(s, pos) == Some((items, pos + enc_fes_len(items).len())),
{
    lemma_auto_spec_u64_to_from_le_bytes();
    lemma_subrange_split(s, pos, enc_u64(items.len() as u64), enc_fes(items));
    lemma_dec_enc_u64(s, pos, items.len() as u64);
    lemma_dec_enc_fes(s, pos + 8, items);
}

pub proof fn lemma_dec_enc_bytes(s: Seq<u8>, pos: int, b: Seq<u8>)
    requires
        b.len() <= u64::MAX,
        0 <= pos,
        pos + enc_bytes(b).len() <= s.len(),
        s.subrange(pos, pos + enc_bytes(b).len()) == enc_bytes(b),
    ensures
        dec_bytes(s, pos) == Some((b, pos + enc_bytes(b).len())),
{
    lemma_auto_spec_u64_to_from_le_bytes();
    lemma_subrange_split(s, pos, enc_u64(b.len() as u64), b);
    lemma_dec_enc_u64(s, pos, b.len() as u64);
}

pub proof fn lemma_dec_enc_poly(s: Seq<u8>, pos: int, p: PolyV)
    requires
        wf_poly_v(p),
        0 <= pos,
        pos + enc_poly(p).len() <= s.len(),
        s.subrange(pos, pos + enc_poly(p).len()) == enc_poly(p),
    ensures
        dec_poly(s, pos) == Some((p, pos + enc_poly(p).len())),
{
    lemma_subrange_split(s, pos, enc_bytes(p.label), enc_fes_len(p.coeffs));
    lemma_dec_enc_bytes(s, pos, p.label);
    lemma_dec_enc_fes_len(s, pos + enc_bytes(p.label).len(), p.coeffs);
}

pub proof fn lemma_dec_enc_opt_fes(s: Seq<u8>, pos: int, o: Option<Seq<Seq<u8>>>)
    requires
        match o {
            Some(v) => wf_fes_v(v),
            None => true,
        },
        0 <= pos,
        pos + enc_opt_fes(o).len() <= s.len(),
        s.subrange(pos, pos + enc_opt_fes(o).len()) == enc_opt_fes(o),
    ensures
        dec_opt_fes(s, pos) == Some((o, pos + enc_opt_fes(o).len())),
{
    match o {
        None => {
            assert(s[pos] == enc_opt_fes(o)[0]);
        },
        Some(v) => {
            lemma_subrange_split(s, pos, seq![1u8], enc_fes_len(v));
            assert(s[pos] == seq![1u8][0]);
            lemma_dec_enc_fes_len(s, pos + 1, v);
        },
    }
}

pub proof fn lemma_dec_enc_evals(s: Seq<u8>, pos: int, e: MatrixEvalsV)
    requires
        wf_evals_v(e),
        0 <= pos,
        pos + enc_evals(e).len() <= s.len(),
        s.subrange(pos, pos + enc_evals(e).len()) == enc_evals(e),
    ensures
        dec_evals(s, pos) == Some((e, pos + enc_evals(e).len())),
{
    let x1 = enc_fes_len(e.row);
    let x2 = enc_fes_len(e.col);
    let x3 = enc_opt_fes(e.row_col);
    assert(enc_evals(e) =~= x1 + (x2 + x3));
    lemma_subrange_split(s, pos, x1, x2 + x3);
    lemma_subrange_split(s, pos + x1.len(), x2, x3);
    lemma_dec_enc_fes_len(s, pos, e.row);
    lemma_dec_enc_fes_len(s, pos + x1.len(), e.col);
    lemma_dec_enc_opt_fes(s, pos + x1.len() + x2.len(), e.row_col);
}

pub proof fn lemma_dec_enc_arith(s: Seq<u8>, pos: int, a: ArithV)
    requires
        wf_arith_v(a),
        0 <= pos,
        pos + enc_arith(a).len() <= s.len(),
        s.subrange(pos, pos + enc_arith(a).len()) == enc_arith(a),
    ensures
        dec_arith(s, pos) == Some((a, pos + enc_arith(a).len())),
{
    let x1 = enc_poly(a.row);
    let x2 = enc_poly(a.col);
    let x3 = enc_poly(a.row_col);
    let x4 = enc_poly(a.row_col_val);
    let x5 = enc_evals(a.evals_on_K);
    assert(enc_arith(a) =~= x1 + (x2 + (x3 + (x4 + x5))));
    lemma_subrange_split(s, pos, x1, x2 + (x3 + (x4 + x5)));
    lemma_subrange_split(s, pos + x1.len(), x2, x3 + (x4 + x5));
    lemma_subrange_split(s, pos + x1.len() + x2.len(), x3, x4 + x5);
    lemma_subrange_split(s, pos + x1.len() + x2.len() + x3.len(), x4, x5);
    lemma_dec_enc_poly(s, pos, a.row);
    lemma_dec_enc_poly(s, pos + x1.len(), a.col);
    lemma_dec_enc_poly(s, pos + x1.len() + x2.len(), a.row_col);
    lemma_dec_enc_poly(s, pos + x1.len() + x2.len() + x3.len(), a.row_col_val);
    lemma_dec_enc_evals(s, pos + x1.len() + x2.len() + x3.len() + x4.len(), a.evals_on_K);
}

pub proof fn lemma_dec_enc_info(s: Seq<u8>, pos: int, i: CircuitInfo)
    requires
        0 <= pos,
        pos + enc_info(i).len() <= s.len(),
        s.subrange(pos, pos + enc_info(i).len()) == enc_info(i),
    ensures
        enc_info(i).len() == 40,
        dec_info(s, pos) == Some((i, pos + 40)),
{
    lemma_auto_spec_u64_to_from_le_bytes();
    let x1 = enc_u64(i.num_constraints);
    let x2 = enc_u64(i.num_variables);
    let x3 = enc_u64(i.num_non_zero_a);
    let x4 = enc_u64(i.num_non_zero_b);
    let x5 = enc_u64(i.num_non_zero_c);
    assert(enc_info(i) =~= x1 + (x2 + (x3 + (x4 + x5))));
    lemma_subrange_split(s, pos, x1, x2 + (x3 + (x4 + x5)));
    lemma_subrange_split(s, pos + 8, x2, x3 + (x4 + x5));
    lemma_subrange_split(s, pos + 16, x3, x4 + x5);
    lemma_subrange_split(s, pos + 24, x4, x5);
    lemma_dec_enc_u64(s, pos, i.num_constraints);
    lemma_dec_enc_u64(s, pos + 8, i.num_variables);
    lemma_dec_enc_u64(s, pos + 16, i.num_non_zero_a);
    lemma_dec_enc_u64(s, pos + 24, i.num_non_zero_b);
    lemma_dec_enc_u64(s, pos + 32, i.num_non_zero_c);
}

} // verus!
