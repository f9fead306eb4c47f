//! Executable writers and readers for the canonical wire form.
//!
//! Each writer appends exactly the `enc_*` encoding of its argument to the
//! output buffer; each reader returns exactly what the `dec_*` parser of
//! `codec` yields at the given position, or `None` where it fails.

use crate::arith::{
    entry_v, evals_v, fes_v, matrix_v, poly_v, row_v, EntryV, LabeledPolynomial, Matrix,
    MatrixArithmetization, MatrixEntry, MatrixEvals,
};
use crate::codec::{
    dec_arith, dec_bytes, dec_entries, dec_entry, dec_evals, dec_fe, dec_fes, dec_fes_len,
    dec_info, dec_matrix, dec_opt_fes, dec_poly, dec_row, dec_rows, dec_u64, dec_u8, enc_arith,
    enc_bytes, enc_entries, enc_entry, enc_evals, enc_fes, enc_fes_len, enc_info, enc_matrix,
    enc_opt_fes, enc_poly, enc_row, enc_rows, enc_u64,
};
use crate::field::FieldElement;
use crate::info::CircuitInfo;
use vstd::bytes::{u64_from_le_bytes, u64_to_le_bytes};
use vstd::prelude::*;
use vstd::slice::slice_subrange;

verus! {

/// The view of an optional evaluation table.
pub open spec fn opt_fes_view(o: Option<Vec<FieldElement>>) -> Option<Seq<Seq<u8>>> {
    match o {
        Some(v) => Some(fes_v(v@)),
        None => None,
    }
}

// ------------------------------------------------------------------
// Writers.
// ------------------------------------------------------------------

pub fn write_u64(out: &mut Vec<u8>, x: u64)
    ensures
        final(out)@ == old(out)@ + enc_u64(x),
{
    let mut b = u64_to_le_bytes(x);
    out.append(&mut b);
}

pub fn write_fe(out: &mut Vec<u8>, f: &FieldElement)
    ensures
        final(out)@ == old(out)@ + f.repr@,
{
    let mut i: usize = 0;
    while i < 32
        invariant
            i <= 32,
            out@ == old(out)@ + f.repr@.subrange(0, i as int),
        decreases 32 - i,
    {
        out.push(f.repr[i]);
        proof {
            assert(old(out)@ + f.repr@.subrange(0, i as int) + seq![f.repr@[i as int]] =~= old(
                out,
            )@ + f.repr@.subrange(0, i + 1));
        }
        i += 1;
    }
    proof {
        assert(f.repr@.subrange(0, 32) =~= f.repr@);
    }
}

pub fn write_entry(out: &mut Vec<u8>, e: &MatrixEntry)
    ensures
        final(out)@ == old(out)@ + enc_entry(entry_v(*e)),
{
    write_fe(out, &e.coeff);
    write_u64(out, e.column);
    proof {
        assert(old(out)@ + e.coeff.repr@ + enc_u64(e.column) =~= old(out)@ + enc_entry(
            entry_v(*e),
        ));
    }
}

/// `enc_entries` of a sequence extended by one entry.
proof fn lemma_enc_entries_push(s: Seq<EntryV>, e: EntryV)
    ensures
        enc_entries(s.push(e)) == enc_entries(s) + enc_entry(e),
    decreases s.len(),
{
    if s.len() == 0 {
        let t = s.push(e);
        assert(t.first() == e);
        assert(t.drop_first() =~= Seq::<EntryV>::empty());
        assert(enc_entries(t.drop_first()) == Seq::<u8>::empty());
        assert(enc_entries(t) == enc_entry(e) + Seq::<u8>::empty());
        assert(enc_entries(s) + enc_entry(e) =~= enc_entry(e) + Seq::<u8>::empty());
    } else {
        assert(s.push(e).drop_first() =~= s.drop_first().push(e));
        lemma_enc_entries_push(s.drop_first(), e);
        assert(enc_entry(s.first()) + (enc_entries(s.drop_first()) + enc_entry(e)) =~= enc_entries(
            s,
        ) + enc_entry(e));
    }
}

proof fn lemma_enc_rows_push(s: Seq<Seq<EntryV>>, r: Seq<EntryV>)
    ensures
        enc_rows(s.push(r)) == enc_rows(s) + enc_row(r),
    decreases s.len(),
{
    if s.len() == 0 {
        let t = s.push(r);
        assert(t.first() == r);
        assert(t.drop_first() =~= Seq::<Seq<EntryV>>::empty());
        assert(enc_rows(t.drop_first()) == Seq::<u8>::empty());
        assert(enc_rows(t) == enc_row(r) + Seq::<u8>::empty());
        assert(enc_rows(s) + enc_row(r) =~= enc_row(r) + Seq::<u8>::empty());
    } else {
        assert(s.push(r).drop_first() =~= s.drop_first().push(r));
        lemma_enc_rows_push(s.drop_first(), r);
        assert(enc_row(s.first()) + (enc_rows(s.drop_first()) + enc_row(r)) =~= enc_rows(s)
            + enc_row(r));
    }
}

proof fn lemma_enc_fes_push(s: Seq<Seq<u8>>, f: Seq<u8>)
    ensures
        enc_fes(s.push(f)) == enc_fes(s) + f,
    decreases s.len(),
{
    if s.len() == 0 {
        let t = s.push(f);
        assert(t.first() == f);
        assert(t.drop_first() =~= Seq::<Seq<u8>>::empty());
        assert(enc_fes(t.drop_first()) == Seq::<u8>::empty());
        assert(enc_fes(t) == f + Seq::<u8>::empty());
        assert(enc_fes(s) + f =~= f + Seq::<u8>::empty());
    } else {
        assert(s.push(f).drop_first() =~= s.drop_first().push(f));
        lemma_enc_fes_push(s.drop_first(), f);
        assert(s.first() + (enc_fes(s.drop_first()) + f) =~= enc_fes(s) + f);
    }
}

pub fn write_row(out: &mut Vec<u8>, r: &Vec<MatrixEntry>)
    ensures
        final(out)@ == old(out)@ + enc_row(row_v(r@)),
{
    write_u64(out, r.len() as u64);
    let mut i: usize = 0;
    while i < r.len()
        invariant
            i <= r.len(),
            out@ == old(out)@ + enc_u64(r@.len() as u64) + enc_entries(row_v(r@).take(i as int)),
        decreases r.len() - i,
    {
        write_entry(out, &r[i]);
        proof {
            assert(row_v(r@).take(i + 1) =~= row_v(r@).take(i as int).push(entry_v(r@[i as int])));
            lemma_enc_entries_push(row_v(r@).take(i as int), entry_v(r@[i as int]));
            assert(out@ =~= old(out)@ + enc_u64(r@.len() as u64) + enc_entries(
                row_v(r@).take(i + 1),
            ));
        }
        i += 1;
    }
    proof {
        assert(row_v(r@).take(r@.len() as int) =~= row_v(r@));
        assert(old(out)@ + enc_u64(r@.len() as u64) + enc_entries(row_v(r@)) =~= old(out)@
            + enc_row(row_v(r@)));
    }
}

pub fn write_matrix(out: &mut Vec<u8>, m: &Matrix)
    ensures
        final(out)@ == old(out)@ + enc_matrix(matrix_v(*m)),
{
    write_u64(out, m.len() as u64);
    let mut i: usize = 0;
    while i < m.len()
        invariant
            i <= m.len(),
            out@ == old(out)@ + enc_u64(m@.len() as u64) + enc_rows(matrix_v(*m).take(i as int)),
        decreases m.len() - i,
    {
        write_row(out, &m[i]);
        proof {
            assert(matrix_v(*m).take(i + 1) =~= matrix_v(*m).take(i as int).push(
                row_v(m@[i as int]@),
            ));
            lemma_enc_rows_push(matrix_v(*m).take(i as int), row_v(m@[i as int]@));
            assert(out@ =~= old(out)@ + enc_u64(m@.len() as u64) + enc_rows(
                matrix_v(*m).take(i + 1),
            ));
        }
        i += 1;
    }
    proof {
        assert(matrix_v(*m).take(m@.len() as int) =~= matrix_v(*m));
        assert(old(out)@ + enc_u64(m@.len() as u64) + enc_rows(matrix_v(*m)) =~= old(out)@
            + enc_matrix(matrix_v(*m)));
    }
}

pub fn write_bytes(out: &mut Vec<u8>, b: &Vec<u8>)
    ensures
        final(out)@ == old(out)@ + enc_bytes(b@),
{
    write_u64(out, b.len() as u64);
    let mut i: usize = 0;
    while i < b.len()
        invariant
            i <= b.len(),
            out@ == old(out)@ + enc_u64(b@.len() as u64) + b@.subrange(0, i as int),
        decreases b.len() - i,
    {
        out.push(b[i]);
        proof {
            assert(old(out)@ + enc_u64(b@.len() as u64) + b@.subrange(0, i as int) + seq![
                b@[i as int],
            ] =~= old(out)@ + enc_u64(b@.len() as u64) + b@.subrange(0, i + 1));
        }
        i += 1;
    }
    proof {
        assert(b@.subrange(0, b@.len() as int) =~= b@);
        assert(old(out)@ + enc_u64(b@.len() as u64) + b@ =~= old(out)@ + enc_bytes(b@));
    }
}

pub fn write_fes(out: &mut Vec<u8>, v: &Vec<FieldElement>)
    ensures
        final(out)@ == old(out)@ + enc_fes_len(fes_v(v@)),
{
    write_u64(out, v.len() as u64);
    let mut i: usize = 0;
    while i < v.len()
        invariant
            i <= v.len(),
            out@ == old(out)@ + enc_u64(v@.len() as u64) + enc_fes(fes_v(v@).take(i as int)),
        decreases v.len() - i,
    {
        write_fe(out, &v[i]);
        proof {
            assert(fes_v(v@).take(i + 1) =~= fes_v(v@).take(i as int).push(v@[i as int].repr@));
            lemma_enc_fes_push(fes_v(v@).take(i as int), v@[i as int].repr@);
            assert(out@ =~= old(out)@ + enc_u64(v@.len() as u64) + enc_fes(
                fes_v(v@).take(i + 1),
            ));
        }
        i += 1;
    }
    proof {
        assert(fes_v(v@).take(v@.len() as int) =~= fes_v(v@));
        assert(old(out)@ + enc_u64(v@.len() as u64) + enc_fes(fes_v(v@)) =~= old(out)@
            + enc_fes_len(fes_v(v@)));
    }
}

pub fn write_opt_fes(out: &mut Vec<u8>, o: &Option<Vec<FieldElement>>)
    ensures
        final(out)@ == old(out)@ + enc_opt_fes(opt_fes_view(*o)),
{
    match o {
        None => {
            out.push(0u8);
            proof {
                assert(old(out)@ + seq![0u8] =~= old(out)@ + enc_opt_fes(opt_fes_view(*o)));
            }
        },
        Some(v) => {
            out.push(1u8);
            write_fes(out, v);
            proof {
                assert(old(out)@ + seq![1u8] + enc_fes_len(fes_v(v@)) =~= old(out)@ + enc_opt_fes(
                    opt_fes_view(*o),
                ));
            }
        },
    }
}

pub fn write_poly(out: &mut Vec<u8>, p: &LabeledPolynomial)
    ensures
        final(out)@ == old(out)@ + enc_poly(poly_v(*p)),
{
    write_bytes(out, &p.label);
    write_fes(out, &p.coeffs);
    proof {
        assert(old(out)@ + enc_bytes(p.label@) + enc_fes_len(fes_v(p.coeffs@)) =~= old(out)@
            + enc_poly(poly_v(*p)));
    }
}

pub fn write_evals(out: &mut Vec<u8>, e: &MatrixEvals)
    ensures
        final(out)@ == old(out)@ + enc_evals(evals_v(*e)),
{
    write_fes(out, &e.row);
    write_fes(out, &e.col);
    write_opt_fes(out, &e.row_col);
    proof {
        assert(old(out)@ + enc_fes_len(fes_v(e.row@)) + enc_fes_len(fes_v(e.col@)) + enc_opt_fes(
            opt_fes_view(e.row_col),
        ) =~= old(out)@ + enc_evals(evals_v(*e)));
    }
}

pub fn write_arith(out: &mut Vec<u8>, a: &MatrixArithmetization)
    ensures
        final(out)@ == old(out)@ + enc_arith(crate::arith::arith_v(*a)),
{
    write_poly(out, &a.row);
    write_poly(out, &a.col);
    write_poly(out, &a.row_col);
    write_poly(out, &a.row_col_val);
    write_evals(out, &a.evals_on_K);
    proof {
        assert(old(out)@ + enc_poly(poly_v(a.row)) + enc_poly(poly_v(a.col)) + enc_poly(
            poly_v(a.row_col),
        ) + enc_poly(poly_v(a.row_col_val)) + enc_evals(evals_v(a.evals_on_K)) =~= old(out)@
            + enc_arith(crate::arith::arith_v(*a)));
    }
}

pub fn write_info(out: &mut Vec<u8>, i: &CircuitInfo)
    ensures
        final(out)@ == old(out)@ + enc_info(*i),
{
    write_u64(out, i.num_constraints);
    write_u64(out, i.num_variables);
    write_u64(out, i.num_non_zero_a);
    write_u64(out, i.num_non_zero_b);
    write_u64(out, i.num_non_zero_c);
    proof {
        assert(old(out)@ + enc_u64(i.num_constraints) + enc_u64(i.num_variables) + enc_u64(
            i.num_non_zero_a,
        ) + enc_u64(i.num_non_zero_b) + enc_u64(i.num_non_zero_c) =~= old(out)@ + enc_info(*i));
    }
}

// ------------------------------------------------------------------
// Readers.
// ------------------------------------------------------------------

pub fn read_u64(bytes: &Vec<u8>, pos: usize) -> (r: Option<(u64, usize)>)
    ensures
        match r {
            Some((x, p)) => dec_u64(bytes@, pos as int) == Some((x, p as int)) && pos <= p
                <= bytes@.len(),
            None => dec_u64(bytes@, pos as int) is None,
        },
{
    if pos <= bytes.len() && bytes.len() - pos >= 8 {
        let s = slice_subrange(bytes.as_slice(), pos, pos + 8);
        let x = u64_from_le_bytes(s);
        Some((x, pos + 8))
    } else {
        None
    }
}

pub fn read_u8(bytes: &Vec<u8>, pos: usize) -> (r: Option<(u8, usize)>)
    ensures
        match r {
            Some((x, p)) => dec_u8(bytes@, pos as int) == Some((x, p as int)) && pos <= p
                <= bytes@.len(),
            None => dec_u8(bytes@, pos as int) is None,
        },
{
    if pos < bytes.len() {
        Some((bytes[pos], pos + 1))
    } else {
        None
    }
}

pub fn read_fe(bytes: &Vec<u8>, pos: usize) -> (r: Option<(FieldElement, usize)>)
    ensures
        match r {
            Some((f, p)) => dec_fe(bytes@, pos as int) == Some((f.repr@, p as int)) && pos <= p
                <= bytes@.len(),
            None => dec_fe(bytes@, pos as int) is None,
        },
{
    if pos <= bytes.len() && bytes.len() - pos >= 32 {
        let mut repr = [0u8; 32];
        let mut i: usize = 0;
        while i < 32
            invariant
                i <= 32,
                pos + 32 <= bytes.len(),
                repr@.subrange(0, i as int) =~= bytes@.subrange(pos as int, pos + i),
            decreases 32 - i,
        {
            vstd::array::ArrayAdditionalExecFns::set(&mut repr, i, bytes[pos + i]);
            proof {
                assert(repr@.subrange(0, i + 1) =~= bytes@.subrange(pos as int, pos + i + 1));
            }
            i += 1;
        }
        proof {
            assert(repr@.subrange(0, 32) =~= repr@);
        }
        Some((FieldElement { repr }, pos + 32))
    } else {
        None
    }
}

pub fn read_entry(bytes: &Vec<u8>, pos: usize) -> (r: Option<(MatrixEntry, usize)>)
    ensures
        match r {
            Some((e, p)) => dec_entry(bytes@, pos as int) == Some((entry_v(e), p as int)) && pos
                <= p <= bytes@.len(),
            None => dec_entry(bytes@, pos as int) is None,
        },
{
    match read_fe(bytes, pos) {
        None => None,
        Some((coeff, p1)) => match read_u64(bytes, p1) {
            None => None,
            Some((column, p2)) => Some((MatrixEntry { coeff, column }, p2)),
        },
    }
}

pub fn read_row(bytes: &Vec<u8>, pos: usize) -> (r: Option<(Vec<MatrixEntry>, usize)>)
    ensures
        match r {
            Some((row, p)) => dec_row(bytes@, pos as int) == Some((row_v(row@), p as int)) && pos
                <= p <= bytes@.len(),
            None => dec_row(bytes@, pos as int) is None,
        },
{
    let (n, start) = match read_u64(bytes, pos) {
        None => {
            return None;
        },
        Some(v) => v,
    };
    let mut built: Vec<MatrixEntry> = Vec::new();
    let mut p = start;
    let mut k: u64 = 0;
    while k < n
        invariant
            k <= n,
            pos <= p <= bytes@.len(),
            built@.len() == k,
            dec_u64(bytes@, pos as int) == Some((n, start as int)),
            match dec_entries(bytes@, p as int, (n - k) as nat) {
                Some((rest, e)) => dec_entries(bytes@, start as int, n as nat) == Some(
                    (row_v(built@) + rest, e),
                ),
                None => dec_entries(bytes@, start as int, n as nat) is None,
            },
        decreases n - k,
    {
        match read_entry(bytes, p) {
            None => {
                return None;
            },
            Some((e, p2)) => {
                proof {
                    let rem = (n - k) as nat;
                    assert(dec_entries(bytes@, p as int, rem) == (match dec_entries(
                        bytes@,
                        p2 as int,
                        (rem - 1) as nat,
                    ) {
                        None => None,
                        Some((rest, pe)) => Some((seq![entry_v(e)] + rest, pe)),
                    }));
                    match dec_entries(bytes@, p2 as int, (rem - 1) as nat) {
                        None => {},
                        Some((rest, pe)) => {
                            assert(row_v(built@.push(e)) =~= row_v(built@).push(entry_v(e)));
                            assert(row_v(built@) + (seq![entry_v(e)] + rest) =~= row_v(
                                built@.push(e),
                            ) + rest);
                        },
                    }
                }
                built.push(e);
                p = p2;
                k += 1;
            },
        }
    }
    proof {
        assert(dec_entries(bytes@, p as int, 0) == Some((Seq::<EntryV>::empty(), p as int)));
        assert(row_v(built@) + Seq::<EntryV>::empty() =~= row_v(built@));
    }
    Some((built, p))
}

pub fn read_matrix(bytes: &Vec<u8>, pos: usize) -> (r: Option<(Matrix, usize)>)
    ensures
        match r {
            Some((m, p)) => dec_matrix(bytes@, pos as int) == Some((matrix_v(m), p as int)) && pos
                <= p <= bytes@.len(),
            None => dec_matrix(bytes@, pos as int) is None,
        },
{
    let (n, start) = match read_u64(bytes, pos) {
        None => {
            return None;
        },
        Some(v) => v,
    };
    let mut built: Matrix = Vec::new();
    let mut p = start;
    let mut k: u64 = 0;
    while k < n
        invariant
            k <= n,
            pos <= p <= bytes@.len(),
            built@.len() == k,
            dec_u64(bytes@, pos as int) == Some((n, start as int)),
            match dec_rows(bytes@, p as int, (n - k) as nat) {
                Some((rest, e)) => dec_rows(bytes@, start as int, n as nat) == Some(
                    (crate::arith::rows_of(built@) + rest, e),
                ),
                None => dec_rows(bytes@, start as int, n as nat) is None,
            },
        decreases n - k,
    {
        match read_row(bytes, p) {
            None => {
                return None;
            },
            Some((row, p2)) => {
                proof {
                    let rem = (n - k) as nat;
                    assert(dec_rows(bytes@, p as int, rem) == (match dec_rows(
                        bytes@,
                        p2 as int,
                        (rem - 1) as nat,
                    ) {
                        None => None,
                        Some((rest, pe)) => Some((seq![row_v(row@)] + rest, pe)),
                    }));
                    match dec_rows(bytes@, p2 as int, (rem - 1) as nat) {
                        None => {},
                        Some((rest, pe)) => {
                            assert(crate::arith::rows_of(built@.push(row)) =~= crate::arith::rows_of(
                                built@,
                            ).push(row_v(row@)));
                            assert(crate::arith::rows_of(built@) + (seq![row_v(row@)] + rest)
                                =~= crate::arith::rows_of(built@).push(row_v(row@)) + rest);
                        },
                    }
                }
                built.push(row);
                p = p2;
                k += 1;
            },
        }
    }
    proof {
        assert(dec_rows(bytes@, p as int, 0) == Some((Seq::<Seq<EntryV>>::empty(), p as int)));
        assert(crate::arith::rows_of(built@) + Seq::<Seq<EntryV>>::empty() =~= matrix_v(built));
    }
    Some((built, p))
}

pub fn read_bytes(bytes: &Vec<u8>, pos: usize) -> (r: Option<(Vec<u8>, usize)>)
    ensures
        match r {
            Some((b, p)) => dec_bytes(bytes@, pos as int) == Some((b@, p as int)) && pos <= p
                <= bytes@.len(),
            None => dec_bytes(bytes@, pos as int) is None,
        },
{
    let (n, start) = match read_u64(bytes, pos) {
        None => {
            return None;
        },
        Some(v) => v,
    };
    if n <= (bytes.len() - start) as u64 {
        proof {
            assert(n as usize <= bytes@.len() - start);
        }
        let end = start + (n as usize);
        let s = slice_subrange(bytes.as_slice(), start, end);
        let b = vstd::slice::slice_to_vec(s);
        Some((b, end))
    } else {
        None
    }
}

pub fn read_fes(bytes: &Vec<u8>, pos: usize) -> (r: Option<(Vec<FieldElement>, usize)>)
    ensures
        match r {
            Some((v, p)) => dec_fes_len(bytes@, pos as int) == Some((fes_v(v@), p as int)) && pos
                <= p <= bytes@.len(),
            None => dec_fes_len(bytes@, pos as int) is None,
        },
{
    let (n, start) = match read_u64(bytes, pos) {
        None => {
            return None;
        },
        Some(v) => v,
    };
    let mut built: Vec<FieldElement> = Vec::new();
    let mut p = start;
    let mut k: u64 = 0;
    while k < n
        invariant
            k <= n,
            pos <= p <= bytes@.len(),
            built@.len() == k,
            dec_u64(bytes@, pos as int) == Some((n, start as int)),
            match dec_fes(bytes@, p as int, (n - k) as nat) {
                Some((rest, e)) => dec_fes(bytes@, start as int, n as nat) == Some(
                    (fes_v(built@) + rest, e),
                ),
                None => dec_fes(bytes@, start as int, n as nat) is None,
            },
        decreases n - k,
    {
        match read_fe(bytes, p) {
            None => {
                return None;
            },
            Some((f, p2)) => {
                proof {
                    let rem = (n - k) as nat;
                    assert(dec_fes(bytes@, p as int, rem) == (match dec_fes(
                        bytes@,
                        p2 as int,
                        (rem - 1) as nat,
                    ) {
                        None => None,
                        Some((rest, pe)) => Some((seq![f.repr@] + rest, pe)),
                    }));
                    match dec_fes(bytes@, p2 as int, (rem - 1) as nat) {
                        None => {},
                        Some((rest, pe)) => {
                            assert(fes_v(built@.push(f)) =~= fes_v(built@).push(f.repr@));
                            assert(fes_v(built@) + (seq![f.repr@] + rest) =~= fes_v(
                                built@.push(f),
                            ) + rest);
                        },
                    }
                }
                built.push(f);
                p = p2;
                k += 1;
            },
        }
    }
    proof {
        assert(dec_fes(bytes@, p as int, 0) == Some((Seq::<Seq<u8>>::empty(), p as int)));
        assert(fes_v(built@) + Seq::<Seq<u8>>::empty() =~= fes_v(built@));
    }
    Some((built, p))
}

pub fn read_opt_fes(bytes: &Vec<u8>, pos: usize) -> (r: Option<
    (Option<Vec<FieldElement>>, usize),
>)
    ensures
        match r {
            Some((o, p)) => dec_opt_fes(bytes@, pos as int) == Some((opt_fes_view(o), p as int))
                && pos <= p <= bytes@.len(),
            None => dec_opt_fes(bytes@, pos as int) is None,
        },
{
    match read_u8(bytes, pos) {
        None => None,
        Some((tag, p1)) => {
            if tag == 0 {
                Some((None, p1))
            } else if tag == 1 {
                match read_fes(bytes, p1) {
                    None => None,
                    Some((v, p2)) => Some((Some(v), p2)),
                }
            } else {
                None
            }
        },
    }
}

pub fn read_poly(bytes: &Vec<u8>, pos: usize) -> (r: Option<(LabeledPolynomial, usize)>)
    ensures
        match r {
            Some((q, p)) => dec_poly(bytes@, pos as int) == Some((poly_v(q), p as int)) && pos <= p
                <= bytes@.len(),
            None => dec_poly(bytes@, pos as int) is None,
        },
{
    match read_bytes(bytes, pos) {
        None => None,
        Some((label, p1)) => match read_fes(bytes, p1) {
            None => None,
            Some((coeffs, p2)) => Some((LabeledPolynomial { label, coeffs }, p2)),
        },
    }
}

pub fn read_evals(bytes: &Vec<u8>, pos: usize) -> (r: Option<(MatrixEvals, usize)>)
    ensures
        match r {
            Some((e, p)) => dec_evals(bytes@, pos as int) == Some((evals_v(e), p as int)) && pos
                <= p <= bytes@.len(),
            None => dec_evals(bytes@, pos as int) is None,
        },
{
    match read_fes(bytes, pos) {
        None => None,
        Some((row, p1)) => match read_fes(bytes, p1) {
            None => None,
            Some((col, p2)) => match read_opt_fes(bytes, p2) {
                None => None,
                Some((row_col, p3)) => Some((MatrixEvals { row, col, row_col }, p3)),
            },
        },
    }
}

pub fn read_arith(bytes: &Vec<u8>, pos: usize) -> (r: Option<(MatrixArithmetization, usize)>)
    ensures
        match r {
            Some((a, p)) => dec_arith(bytes@, pos as int) == Some(
                (crate::arith::arith_v(a), p as int),
            ) && pos <= p <= bytes@.len(),
            None => dec_arith(bytes@, pos as int) is None,
        },
{
    match read_poly(bytes, pos) {
        None => None,
        Some((row, p1)) => match read_poly(bytes, p1) {
            None => None,
            Some((col, p2)) => match read_poly(bytes, p2) {
                None => None,
                Some((row_col, p3)) => match read_poly(bytes, p3) {
                    None => None,
                    Some((row_col_val, p4)) => match read_evals(bytes, p4) {
                        None => None,
                        Some((evals, p5)) => Some(
                            (
                                MatrixArithmetization {
                                    row,
                                    col,
                                    row_col,
                                    row_col_val,
                                    evals_on_K: evals,
                                },
                                p5,
                            ),
                        ),
                    },
                },
            },
        },
    }
}

pub fn read_info(bytes: &Vec<u8>, pos: usize) -> (r: Option<(CircuitInfo, usize)>)
    ensures
        match r {
            Some((i, p)) => dec_info(bytes@, pos as int) == Some((i, p as int)) && pos <= p
                <= bytes@.len(),
            None => dec_info(bytes@, pos as int) is None,
        },
{
    match read_u64(bytes, pos) {
        None => None,
        Some((nc, p1)) => match read_u64(bytes, p1) {
            None => None,
            Some((nv, p2)) => match read_u64(bytes, p2) {
                None => None,
                Some((za, p3)) => match read_u64(bytes, p3) {
                    None => None,
                    Some((zb, p4)) => match read_u64(bytes, p4) {
                        None => None,
                        Some((zc, p5)) => Some(
                            (
                                CircuitInfo {
                                    num_constraints: nc,
                                    num_variables: nv,
                                    num_non_zero_a: za,
                                    num_non_zero_b: zb,
                                    num_non_zero_c: zc,
                                },
                                p5,
                            ),
                        ),
                    },
                },
            },
        },
    }
}

} // verus!
