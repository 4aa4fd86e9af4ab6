//! The reduction of an R1CS instance to a quadratic arithmetic program.
//!
//! Given a finished `ProvingAssignment`, the witness map produces the
//! quotient polynomial `H` of the QAP divisibility relation
//! `A(x) * B(x) - C(x) = H(x) * Z(x)` over the evaluation domain, where
//! `A`, `B`, `C` interpolate the witness-weighted constraint rows (with
//! one extra consistency row per public input on the `A` side) and `Z`
//! is the domain's vanishing polynomial. The quotient is computed on the
//! coset shifted by the field generator, where `Z` is the nonzero
//! constant `g^m - 1`, so the division is a pointwise scaling.
//!
//! The whole computation is specified as a function of the recorded
//! matrices and the witness, and the executable code is proved to return
//! exactly that value.

use vstd::prelude::*;
use crate::assignment::ProvingAssignment;
use crate::domain::{
    EvaluationDomain, coset_scale_spec, coset_scale_vec, dft, dft_spec, idft, idft_spec, next_pow2,
    scale_spec, scale_vec,
};
use crate::field::{
    Fr, GENERATOR, MODULUS, f_add, f_inv, f_mul, f_pow, f_sub, frs_valid, frs_view,
};
use crate::optional_vec::OptionalVec;
use crate::r1cs::{Index, SynthesisError, row_in_bounds, row_value};

verus! {

/// The rows of a dense constraint store, in slot order.
pub open spec fn rows_view(ov: OptionalVec<Vec<(Fr, Index)>>) -> Seq<Seq<(Fr, Index)>> {
    Seq::new(ov.values@.len(), |i: int| (ov.values@[i]->Some_0)@)
}

/// The values of a dense assignment store, in slot order.
pub open spec fn dense_view(ov: OptionalVec<Fr>) -> Seq<int> {
    Seq::new(ov.values@.len(), |i: int| (ov.values@[i]->Some_0)@)
}

/// Whether every term of every row refers to a live variable.
pub open spec fn rows_in_bounds(rows: Seq<Seq<(Fr, Index)>>, n_inputs: int, n_aux: int) -> bool {
    forall|i: int| 0 <= i < rows.len() ==> row_in_bounds(#[trigger] rows[i], n_inputs, n_aux)
}

/// The evaluations of one witness-weighted constraint matrix at the
/// domain points: one row value per constraint, then (for the `A`
/// matrix) one consistency entry per public input, then zeros up to the
/// domain size.
pub open spec fn matrix_evals(
    rows: Seq<Seq<(Fr, Index)>>,
    inputs: Seq<int>,
    auxs: Seq<int>,
    m: nat,
    consistency: bool,
) -> Seq<int> {
    Seq::new(
        m,
        |i: int| if i < rows.len() {
            row_value(rows[i], inputs, auxs)
        } else if consistency && i < rows.len() + inputs.len() {
            inputs[i - rows.len()]
        } else {
            0
        },
    )
}

/// The quotient polynomial of the QAP relation, as a function of the
/// recorded matrices and the witness: interpolate the three matrices'
/// evaluations, re-evaluate them on the coset shifted by the field
/// generator, divide the pointwise `A * B - C` there by the constant
/// value `g^m - 1` of the vanishing polynomial, and interpolate back off
/// the coset.
pub open spec fn witness_map_spec(
    a_rows: Seq<Seq<(Fr, Index)>>,
    b_rows: Seq<Seq<(Fr, Index)>>,
    c_rows: Seq<Seq<(Fr, Index)>>,
    inputs: Seq<int>,
    auxs: Seq<int>,
    m: nat,
) -> Seq<int> {
    let w = crate::domain::domain_gen(m as int);
    let g = GENERATOR as int;
    let a_poly = idft_spec(matrix_evals(a_rows, inputs, auxs, m, true), w);
    let b_poly = idft_spec(matrix_evals(b_rows, inputs, auxs, m, false), w);
    let c_poly = idft_spec(matrix_evals(c_rows, inputs, auxs, m, false), w);
    let a_cos = dft_spec(coset_scale_spec(a_poly, g), w, m);
    let b_cos = dft_spec(coset_scale_spec(b_poly, g), w, m);
    let c_cos = dft_spec(coset_scale_spec(c_poly, g), w, m);
    let zinv = f_inv(f_sub(f_pow(g, m), 1));
    let h_cos = Seq::new(m, |i: int| f_mul(zinv, f_sub(f_mul(a_cos[i], b_cos[i]), c_cos[i])));
    coset_scale_spec(idft_spec(h_cos, w), f_inv(g))
}

/// The weighted sum of one row over the witness; fails exactly when a
/// term refers to a variable index that is out of range.
fn eval_row(row: &Vec<(Fr, Index)>, inputs: &Vec<Fr>, auxs: &Vec<Fr>) -> (r: Result<
    Fr,
    SynthesisError,
>)
    requires
        crate::assignment::row_coeffs_valid(row@),
        frs_valid(inputs@),
        frs_valid(auxs@),
    ensures
        row_in_bounds(row@, inputs@.len() as int, auxs@.len() as int) ==> r is Ok
            && r->Ok_0.is_valid() && r->Ok_0@ == row_value(
            row@,
            frs_view(inputs@),
            frs_view(auxs@),
        ),
        !row_in_bounds(row@, inputs@.len() as int, auxs@.len() as int) ==> r == Err::<
            Fr,
            SynthesisError,
        >(SynthesisError::AssignmentMissing),
{
    let mut acc = Fr::zero();
    let n = row.len();
    let mut k: usize = 0;
    while k < n
        invariant
            k <= n,
            n == row@.len(),
            crate::assignment::row_coeffs_valid(row@),
            frs_valid(inputs@),
            frs_valid(auxs@),
            acc.is_valid(),
            row_in_bounds(row@.take(k as int), inputs@.len() as int, auxs@.len() as int),
            acc@ == row_value(row@.take(k as int), frs_view(inputs@), frs_view(auxs@)),
        decreases n - k,
    {
        let (coeff, ix) = row[k];
        let value = match ix {
            Index::Input(i) => {
                if i >= inputs.len() {
                    return Err(SynthesisError::AssignmentMissing);
                }
                inputs[i]
            },
            Index::Aux(i) => {
                if i >= auxs.len() {
                    return Err(SynthesisError::AssignmentMissing);
                }
                auxs[i]
            },
        };
        acc = acc.add(coeff.mul(value));
        proof {
            assert(row@.take(k + 1).drop_last() =~= row@.take(k as int));
            assert(row@.take(k + 1).last() == row@[k as int]);
            assert(row_in_bounds(row@.take(k + 1), inputs@.len() as int, auxs@.len() as int));
        }
        k = k + 1;
    }
    proof {
        assert(row@.take(n as int) =~= row@);
    }
    Ok(acc)
}

/// Collects a dense assignment store into a plain vector, in slot order.
pub(crate) fn collect_dense(ov: &OptionalVec<Fr>) -> (r: Vec<Fr>)
    requires
        ov.wf(),
        ov.holes@.len() == 0,
        forall|i: int| ov.live_map().dom().contains(i) ==> (#[trigger] ov.live_map()[i]).is_valid(),
    ensures
        frs_valid(r@),
        frs_view(r@) == dense_view(*ov),
        r@.len() == ov.values@.len(),
{
    let mut out: Vec<Fr> = Vec::new();
    let n = ov.capacity();
    let mut i: usize = 0;
    while i < n
        invariant
            i <= n,
            n == ov.values@.len(),
            ov.wf(),
            ov.holes@.len() == 0,
            forall|j: int| ov.live_map().dom().contains(j) ==> (
            #[trigger] ov.live_map()[j]).is_valid(),
            out@.len() == i,
            frs_valid(out@),
            forall|j: int| 0 <= j < i ==> frs_view(out@)[j] == dense_view(*ov)[j],
        decreases n - i,
    {
        let v = match &ov.values[i] {
            Some(x) => *x,
            None => {
                proof {
                    assert(false);
                }
                Fr { value: 0 }
            },
        };
        proof {
            assert(ov.live_map().dom().contains(i as int));
            assert(ov.live_map()[i as int] == v);
        }
        let ghost prev = out@;
        out.push(v);
        proof {
            assert forall|j: int| 0 <= j < i + 1 implies frs_view(out@)[j] == dense_view(*ov)[j] by {
                if j < i {
                    assert(frs_view(out@)[j] == frs_view(prev)[j]);
                } else {
                    assert(frs_view(out@)[j] == v@);
                }
            }
        }
        i = i + 1;
    }
    proof {
        assert(frs_view(out@) =~= dense_view(*ov));
    }
    out
}

/// Builds one matrix's evaluation vector: the row values, then (for the
/// `A` matrix) the input consistency entries, then zeros up to the
/// domain size.
fn build_evals(
    store: &OptionalVec<Vec<(Fr, Index)>>,
    inputs: &Vec<Fr>,
    auxs: &Vec<Fr>,
    m: usize,
    consistency: bool,
) -> (r: Result<Vec<Fr>, SynthesisError>)
    requires
        store.wf(),
        store.holes@.len() == 0,
        forall|i: int| store.live_map().dom().contains(i) ==> crate::assignment::row_coeffs_valid(
            (#[trigger] store.live_map()[i])@,
        ),
        frs_valid(inputs@),
        frs_valid(auxs@),
        store.values@.len() + inputs@.len() <= m,
    ensures
        rows_in_bounds(rows_view(*store), inputs@.len() as int, auxs@.len() as int) ==> r is Ok
            && frs_valid(r->Ok_0@) && frs_view(r->Ok_0@) == matrix_evals(
            rows_view(*store),
            frs_view(inputs@),
            frs_view(auxs@),
            m as nat,
            consistency,
        ),
        !rows_in_bounds(rows_view(*store), inputs@.len() as int, auxs@.len() as int) ==> r
            == Err::<Vec<Fr>, SynthesisError>(SynthesisError::AssignmentMissing),
{
    let ghost target = matrix_evals(
        rows_view(*store),
        frs_view(inputs@),
        frs_view(auxs@),
        m as nat,
        consistency,
    );
    let mut out: Vec<Fr> = Vec::new();
    let ncons = store.capacity();
    let mut i: usize = 0;
    while i < ncons
        invariant
            i <= ncons,
            ncons == store.values@.len(),
            store.wf(),
            store.holes@.len() == 0,
            forall|j: int| store.live_map().dom().contains(j)
                ==> crate::assignment::row_coeffs_valid((#[trigger] store.live_map()[j])@),
            frs_valid(inputs@),
            frs_valid(auxs@),
            ncons + inputs@.len() <= m,
            target == matrix_evals(
                rows_view(*store),
                frs_view(inputs@),
                frs_view(auxs@),
                m as nat,
                consistency,
            ),
            out@.len() == i,
            frs_valid(out@),
            rows_in_bounds(rows_view(*store).take(i as int), inputs@.len() as int, auxs@.len() as int),
            forall|j: int| 0 <= j < i ==> frs_view(out@)[j] == target[j],
        decreases ncons - i,
    {
        proof {
            assert(store.live_map().dom().contains(i as int));
        }
        let row = store.get(i);
        let v = match eval_row(row, inputs, auxs) {
            Ok(v) => v,
            Err(e) => {
                proof {
                    assert(rows_view(*store)[i as int] == row@);
                    assert(!rows_in_bounds(
                        rows_view(*store),
                        inputs@.len() as int,
                        auxs@.len() as int,
                    ));
                }
                return Err(e);
            },
        };
        proof {
            assert(rows_view(*store)[i as int] == row@);
            assert forall|j: int| 0 <= j < i + 1 implies row_in_bounds(
                #[trigger] rows_view(*store).take(i + 1)[j],
                inputs@.len() as int,
                auxs@.len() as int,
            ) by {
                if j < i {
                    assert(rows_view(*store).take(i as int)[j] == rows_view(*store).take(i + 1)[j]);
                }
            }
        }
        let ghost prev = out@;
        out.push(v);
        proof {
            assert forall|j: int| 0 <= j < i + 1 implies frs_view(out@)[j] == target[j] by {
                if j < i {
                    assert(frs_view(out@)[j] == frs_view(prev)[j]);
                } else {
                    assert(frs_view(out@)[j] == v@);
                }
            }
        }
        i = i + 1;
    }
    proof {
        assert(rows_view(*store).take(ncons as int) =~= rows_view(*store));
    }
    let n_in = if consistency {
        inputs.len()
    } else {
        0
    };
    let mut j: usize = 0;
    while j < n_in
        invariant
            j <= n_in,
            consistency ==> n_in == inputs@.len(),
            !consistency ==> n_in == 0,
            ncons == store.values@.len(),
            rows_in_bounds(rows_view(*store), inputs@.len() as int, auxs@.len() as int),
            frs_valid(inputs@),
            ncons + inputs@.len() <= m,
            target == matrix_evals(
                rows_view(*store),
                frs_view(inputs@),
                frs_view(auxs@),
                m as nat,
                consistency,
            ),
            out@.len() == ncons + j,
            frs_valid(out@),
            forall|t: int| 0 <= t < ncons + j ==> frs_view(out@)[t] == target[t],
        decreases n_in - j,
    {
        let ghost prev = out@;
        out.push(inputs[j]);
        proof {
            assert forall|t: int| 0 <= t < ncons + j + 1 implies frs_view(out@)[t] == target[t] by {
                if t < ncons + j {
                    assert(frs_view(out@)[t] == frs_view(prev)[t]);
                } else {
                    assert(frs_view(out@)[t] == inputs@[j as int]@);
                }
            }
        }
        j = j + 1;
    }
    let base = out.len();
    let mut t: usize = base;
    while t < m
        invariant
            base <= t <= m,
            ncons == store.values@.len(),
            rows_in_bounds(rows_view(*store), inputs@.len() as int, auxs@.len() as int),
            frs_valid(inputs@),
            target == matrix_evals(
                rows_view(*store),
                frs_view(inputs@),
                frs_view(auxs@),
                m as nat,
                consistency,
            ),
            base == ncons + if consistency {
                inputs@.len() as int
            } else {
                0
            },
            out@.len() == t,
            frs_valid(out@),
            forall|u: int| 0 <= u < t ==> frs_view(out@)[u] == target[u],
        decreases m - t,
    {
        let ghost prev = out@;
        out.push(Fr::zero());
        proof {
            assert forall|u: int| 0 <= u < t + 1 implies frs_view(out@)[u] == target[u] by {
                if u < t {
                    assert(frs_view(out@)[u] == frs_view(prev)[u]);
                } else {
                    assert(frs_view(out@)[u] == 0);
                    assert(target[u] == 0);
                }
            }
        }
        t = t + 1;
    }
    proof {
        assert(out@.len() == if m >= base {
            m as int
        } else {
            base as int
        });
        assert(frs_view(out@) =~= target);
    }
    Ok(out)
}

/// The pointwise quotient on the coset: each entry of `A * B - C`
/// multiplied by the inverse of the vanishing constant.
fn pointwise_quotient(a: &Vec<Fr>, b: &Vec<Fr>, c: &Vec<Fr>, zinv: Fr) -> (r: Vec<Fr>)
    requires
        frs_valid(a@),
        frs_valid(b@),
        frs_valid(c@),
        zinv.is_valid(),
        b@.len() == a@.len(),
        c@.len() == a@.len(),
    ensures
        frs_valid(r@),
        frs_view(r@) == Seq::new(
            a@.len(),
            |i: int| f_mul(
                zinv@,
                f_sub(f_mul(frs_view(a@)[i], frs_view(b@)[i]), frs_view(c@)[i]),
            ),
        ),
{
    let ghost target = Seq::new(
        a@.len(),
        |i: int| f_mul(zinv@, f_sub(f_mul(frs_view(a@)[i], frs_view(b@)[i]), frs_view(c@)[i])),
    );
    let mut out: Vec<Fr> = Vec::new();
    let n = a.len();
    let mut i: usize = 0;
    while i < n
        invariant
            i <= n,
            n == a@.len(),
            b@.len() == n,
            c@.len() == n,
            frs_valid(a@),
            frs_valid(b@),
            frs_valid(c@),
            zinv.is_valid(),
            target == Seq::new(
                a@.len(),
                |t: int| f_mul(
                    zinv@,
                    f_sub(f_mul(frs_view(a@)[t], frs_view(b@)[t]), frs_view(c@)[t]),
                ),
            ),
            out@.len() == i,
            frs_valid(out@),
            forall|j: int| 0 <= j < i ==> frs_view(out@)[j] == target[j],
        decreases n - i,
    {
        let y = zinv.mul(a[i].mul(b[i]).sub(c[i]));
        let ghost prev = out@;
        out.push(y);
        proof {
            assert forall|j: int| 0 <= j < i + 1 implies frs_view(out@)[j] == target[j] by {
                if j < i {
                    assert(frs_view(out@)[j] == frs_view(prev)[j]);
                } else {
                    assert(frs_view(out@)[j] == y@);
                }
            }
        }
        i = i + 1;
    }
    proof {
        assert(frs_view(out@) =~= target);
    }
    out
}

/// Whether a finished assignment can be reduced: every store is dense
/// (no retracted slot is left open) and every row refers only to live
/// variables.
pub open spec fn reducible(pa: ProvingAssignment) -> bool {
    &&& pa.at.holes@.len() == 0
    &&& pa.bt.holes@.len() == 0
    &&& pa.ct.holes@.len() == 0
    &&& pa.input_assignment.holes@.len() == 0
    &&& pa.aux_assignment.holes@.len() == 0
    &&& rows_in_bounds(
        rows_view(pa.at),
        pa.input_assignment.values@.len() as int,
        pa.aux_assignment.values@.len() as int,
    )
    &&& rows_in_bounds(
        rows_view(pa.bt),
        pa.input_assignment.values@.len() as int,
        pa.aux_assignment.values@.len() as int,
    )
    &&& rows_in_bounds(
        rows_view(pa.ct),
        pa.input_assignment.values@.len() as int,
        pa.aux_assignment.values@.len() as int,
    )
}

/// The domain size the reduction uses: the smallest power of two holding
/// the constraints plus the public inputs (at least one).
pub open spec fn reduction_domain_size(pa: ProvingAssignment) -> nat {
    let n = pa.at.values@.len() + pa.input_assignment.values@.len();
    next_pow2(
        if n == 0 {
            1nat
        } else {
            n as nat
        },
    )
}

/// Reduces a finished assignment to the QAP quotient polynomial `H`.
/// Fails with `AssignmentMissing` when a store still has holes or a row
/// refers to a missing variable, and with `PolynomialDegreeTooLarge`
/// when the domain would outgrow the field's two-adicity; otherwise
/// returns exactly the quotient's coefficients.
pub fn witness_map(pa: &ProvingAssignment) -> (r: Result<Vec<Fr>, SynthesisError>)
    requires
        pa.wf(),
    ensures
        !reducible(*pa) ==> r == Err::<Vec<Fr>, SynthesisError>(SynthesisError::AssignmentMissing),
        reducible(*pa) && pa.at.values@.len() + pa.input_assignment.values@.len() > 0x800_0000
            ==> r == Err::<Vec<Fr>, SynthesisError>(SynthesisError::PolynomialDegreeTooLarge),
        reducible(*pa) && pa.at.values@.len() + pa.input_assignment.values@.len() <= 0x800_0000
            ==> r is Ok && frs_valid(r->Ok_0@) && r->Ok_0@.len() == reduction_domain_size(*pa)
            && frs_view(r->Ok_0@) == witness_map_spec(
            rows_view(pa.at),
            rows_view(pa.bt),
            rows_view(pa.ct),
            dense_view(pa.input_assignment),
            dense_view(pa.aux_assignment),
            reduction_domain_size(*pa),
        ),
{
    if !(pa.at.is_dense() && pa.bt.is_dense() && pa.ct.is_dense() && pa.input_assignment.is_dense()
        && pa.aux_assignment.is_dense()) {
        return Err(SynthesisError::AssignmentMissing);
    }
    let inputs = collect_dense(&pa.input_assignment);
    let auxs = collect_dense(&pa.aux_assignment);
    let ncons = pa.at.capacity();
    let ninputs = inputs.len();
    if ncons > 0x800_0000 || ninputs > 0x800_0000 || ncons + ninputs > 0x800_0000 {
        if build_evals_would_fail(pa, &inputs, &auxs) {
            return Err(SynthesisError::AssignmentMissing);
        }
        return Err(SynthesisError::PolynomialDegreeTooLarge);
    }
    let domain = match EvaluationDomain::new(ncons + ninputs) {
        Ok(d) => d,
        Err(e) => { return Err(e); },
    };
    let m = domain.size as usize;
    proof {
        assert(m >= ncons + ninputs);
        assert(m as nat == reduction_domain_size(*pa));
    }
    let a_evals = match build_evals(&pa.at, &inputs, &auxs, m, true) {
        Ok(v) => v,
        Err(e) => { return Err(e); },
    };
    let b_evals = match build_evals(&pa.bt, &inputs, &auxs, m, false) {
        Ok(v) => v,
        Err(e) => { return Err(e); },
    };
    let c_evals = match build_evals(&pa.ct, &inputs, &auxs, m, false) {
        Ok(v) => v,
        Err(e) => { return Err(e); },
    };
    let w = domain.group_gen;
    let g = Fr { value: GENERATOR };
    let a_poly = idft(&a_evals, w);
    let b_poly = idft(&b_evals, w);
    let c_poly = idft(&c_evals, w);
    let a_cos = dft(&coset_scale_vec(&a_poly, g), w, m);
    let b_cos = dft(&coset_scale_vec(&b_poly, g), w, m);
    let c_cos = dft(&coset_scale_vec(&c_poly, g), w, m);
    let zval = g.pow(domain.size).sub(Fr::one());
    let zinv = zval.inverse();
    let h_cos = pointwise_quotient(&a_cos, &b_cos, &c_cos, zinv);
    let h = coset_scale_vec(&idft(&h_cos, w), g.inverse());
    proof {
        assert(frs_view(h@) =~= witness_map_spec(
            rows_view(pa.at),
            rows_view(pa.bt),
            rows_view(pa.ct),
            dense_view(pa.input_assignment),
            dense_view(pa.aux_assignment),
            m as nat,
        ));
    }
    Ok(h)
}

/// Whether some row of the assignment refers to a missing variable; the
/// oversized-domain path still reports a broken witness first, as the
/// in-domain path would.
fn build_evals_would_fail(pa: &ProvingAssignment, inputs: &Vec<Fr>, auxs: &Vec<Fr>) -> (r: bool)
    requires
        pa.wf(),
        pa.at.holes@.len() == 0,
        pa.bt.holes@.len() == 0,
        pa.ct.holes@.len() == 0,
        frs_valid(inputs@),
        frs_valid(auxs@),
        inputs@.len() == pa.input_assignment.values@.len(),
        auxs@.len() == pa.aux_assignment.values@.len(),
    ensures
        r == !(rows_in_bounds(
            rows_view(pa.at),
            pa.input_assignment.values@.len() as int,
            pa.aux_assignment.values@.len() as int,
        ) && rows_in_bounds(
            rows_view(pa.bt),
            pa.input_assignment.values@.len() as int,
            pa.aux_assignment.values@.len() as int,
        ) && rows_in_bounds(
            rows_view(pa.ct),
            pa.input_assignment.values@.len() as int,
            pa.aux_assignment.values@.len() as int,
        )),
{
    !(rows_all_in_bounds(&pa.at, inputs, auxs) && rows_all_in_bounds(&pa.bt, inputs, auxs)
        && rows_all_in_bounds(&pa.ct, inputs, auxs))
}

/// Checks every row of one dense store against the live variable counts.
pub(crate) fn rows_all_in_bounds(store: &OptionalVec<Vec<(Fr, Index)>>, inputs: &Vec<Fr>, auxs: &Vec<Fr>) -> (r:
    bool)
    requires
        store.wf(),
        store.holes@.len() == 0,
    ensures
        r == rows_in_bounds(rows_view(*store), inputs@.len() as int, auxs@.len() as int),
{
    let n = store.capacity();
    let mut i: usize = 0;
    while i < n
        invariant
            i <= n,
            n == store.values@.len(),
            store.wf(),
            store.holes@.len() == 0,
            forall|j: int| 0 <= j < i ==> row_in_bounds(
                #[trigger] rows_view(*store)[j],
                inputs@.len() as int,
                auxs@.len() as int,
            ),
        decreases n - i,
    {
        proof {
            assert(store.live_map().dom().contains(i as int));
        }
        let row = store.get(i);
        if !row_bounds_check(row, inputs.len(), auxs.len()) {
            proof {
                assert(rows_view(*store)[i as int] == row@);
            }
            return false;
        }
        proof {
            assert(rows_view(*store)[i as int] == row@);
        }
        i = i + 1;
    }
    true
}

/// Checks one row's variable references against the live counts.
fn row_bounds_check(row: &Vec<(Fr, Index)>, n_inputs: usize, n_aux: usize) -> (r: bool)
    ensures
        r == row_in_bounds(row@, n_inputs as int, n_aux as int),
{
    let n = row.len();
    let mut k: usize = 0;
    while k < n
        invariant
            k <= n,
            n == row@.len(),
            row_in_bounds(row@.take(k as int), n_inputs as int, n_aux as int),
        decreases n - k,
    {
        let ok = match row[k].1 {
            Index::Input(i) => i < n_inputs,
            Index::Aux(i) => i < n_aux,
        };
        if !ok {
            proof {
                assert(!row_in_bounds(row@, n_inputs as int, n_aux as int));
            }
            return false;
        }
        proof {
            assert(row@.take(k + 1).drop_last() =~= row@.take(k as int));
            assert(row@.take(k + 1).last() == row@[k as int]);
            assert forall|t: int| 0 <= t < k + 1 implies match (#[trigger] row@.take(k + 1)[t]).1 {
                Index::Input(i) => i < n_inputs as int,
                Index::Aux(i) => i < n_aux as int,
            } by {
                if t < k {
                    assert(row@.take(k as int)[t] == row@.take(k + 1)[t]);
                }
            }
        }
        k = k + 1;
    }
    proof {
        assert(row@.take(n as int) =~= row@);
    }
    true
}

} // verus!
