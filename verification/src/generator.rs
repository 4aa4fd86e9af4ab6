//! The parameter generator.
//!
//! From a circuit description and trusted randomness — the five secret
//! scalars of the setup — the generator produces the full prover key:
//! it synthesizes the circuit once to recover the constraint matrices,
//! evaluates each variable's QAP polynomials at the secret point by
//! Lagrange interpolation over the evaluation domain, and publishes the
//! query vectors of blinded evaluations together with the verification
//! key. The secret scalars must be discarded after the ceremony; the
//! generator itself is a deterministic function of its arguments, and
//! [`generate_from_assignment`] pins every query vector to its
//! spec-level formula.

use vstd::prelude::*;
use crate::assignment::{ConstraintSynthesizer, ProvingAssignment};
use crate::domain::{EvaluationDomain, domain_gen};
use crate::field::{Fr, MODULUS, f_add, f_inv, f_mul, f_pow, f_sub, frs_valid, frs_view};
use crate::group::G1Affine;
use crate::keys::{Parameters, ParametersModel, VerifyingKey, VerifyingKeyModel, points_valid, points_view};
use crate::optional_vec::OptionalVec;
use crate::qap::{collect_dense, reducible, reduction_domain_size, rows_all_in_bounds, rows_view};
use crate::r1cs::{Index, SynthesisError, row_in_bounds};

verus! {

/// The position of a tagged variable in the flat variable order: public
/// inputs first, then the auxiliary variables.
pub open spec fn global_index(ix: Index, n_inputs: int) -> int {
    match ix {
        Index::Input(j) => j as int,
        Index::Aux(j) => n_inputs + j,
    }
}

/// One row folded into the per-variable accumulator: each term adds its
/// coefficient times the row's Lagrange coefficient to its variable's
/// entry, in term order.
pub open spec fn acc_row_terms(u: Seq<int>, row: Seq<(Fr, Index)>, li: int, n_inputs: int) -> Seq<
    int,
>
    decreases row.len(),
{
    if row.len() == 0 {
        u
    } else {
        let u1 = acc_row_terms(u, row.drop_last(), li, n_inputs);
        let pos = global_index(row.last().1, n_inputs);
        u1.update(pos, f_add(u1[pos], f_mul(row.last().0@, li)))
    }
}

/// A whole constraint matrix folded into the per-variable accumulator,
/// row by row in order, each row weighted by its Lagrange coefficient.
pub open spec fn acc_matrix(
    u: Seq<int>,
    rows: Seq<Seq<(Fr, Index)>>,
    lag: Seq<int>,
    n_inputs: int,
) -> Seq<int>
    decreases rows.len(),
{
    if rows.len() == 0 {
        u
    } else {
        acc_row_terms(
            acc_matrix(u, rows.drop_last(), lag, n_inputs),
            rows.last(),
            lag[rows.len() - 1],
            n_inputs,
        )
    }
}

/// The Lagrange coefficients of the domain's points at the secret point:
/// `L_i(tau) = (tau^m - 1) * w^i / (m * (tau - w^i))`.
pub open spec fn lagrange_coeffs(m: nat, tau: int) -> Seq<int> {
    let w = domain_gen(m as int);
    let zt = f_sub(f_pow(tau, m), 1);
    Seq::new(
        m,
        |i: int| f_mul(
            f_mul(zt, f_pow(w, i as nat)),
            f_inv(f_mul((m as int) % (MODULUS as int), f_sub(tau, f_pow(w, i as nat)))),
        ),
    )
}

/// The input consistency rows added on the `A` side: public input `v`
/// gains the Lagrange coefficient of domain point `ncons + v`.
pub open spec fn add_input_consistency(
    u: Seq<int>,
    lag: Seq<int>,
    ncons: int,
    n_inputs: int,
) -> Seq<int> {
    Seq::new(
        u.len(),
        |v: int| if v < n_inputs {
            f_add(u[v], lag[ncons + v])
        } else {
            u[v]
        },
    )
}

/// The `beta * a + alpha * b + c` combination of one variable's three
/// QAP polynomial evaluations, as the input and auxiliary query terms
/// use it before blinding.
pub open spec fn combined_term(
    ua: Seq<int>,
    ub: Seq<int>,
    uc: Seq<int>,
    alpha: int,
    beta: int,
    v: int,
) -> int {
    f_add(f_add(f_mul(beta, ua[v]), f_mul(alpha, ub[v])), uc[v])
}

/// The `h` query: the powers of the secret point times the vanishing
/// value, blinded by the inverse of `delta`; one entry short of the
/// domain size.
pub open spec fn h_query_spec(m: nat, tau: int, delta: int) -> Seq<int> {
    Seq::new(
        if m == 0 {
            0nat
        } else {
            (m - 1) as nat
        },
        |i: int| f_mul(f_mul(f_pow(tau, i as nat), f_sub(f_pow(tau, m), 1)), f_inv(delta)),
    )
}

/// The exact parameters the generator owes for a finished assignment and
/// the five secret scalars: the verification key holds the four fixed
/// secrets, the three main queries hold the per-variable QAP polynomial
/// evaluations at the secret point, the input terms are blinded by the
/// inverse of `gamma`, the auxiliary terms and the `h` powers by the
/// inverse of `delta`.
pub open spec fn generated_params(
    pa: ProvingAssignment,
    alpha: int,
    beta: int,
    gamma: int,
    delta: int,
    tau: int,
) -> ParametersModel {
    let n_inputs = pa.input_assignment.values@.len() as int;
    let n_aux = pa.aux_assignment.values@.len() as int;
    let ncons = pa.at.values@.len() as int;
    let m = reduction_domain_size(pa);
    let lag = lagrange_coeffs(m, tau);
    let zeros = Seq::new((n_inputs + n_aux) as nat, |v: int| 0int);
    let ua = add_input_consistency(
        acc_matrix(zeros, rows_view(pa.at), lag, n_inputs),
        lag,
        ncons,
        n_inputs,
    );
    let ub = acc_matrix(zeros, rows_view(pa.bt), lag, n_inputs);
    let uc = acc_matrix(zeros, rows_view(pa.ct), lag, n_inputs);
    ParametersModel {
        vk: VerifyingKeyModel {
            alpha_g1: alpha,
            beta_g2: beta,
            gamma_g2: gamma,
            delta_g2: delta,
            gamma_abc_g1: Seq::new(
                n_inputs as nat,
                |j: int| f_mul(combined_term(ua, ub, uc, alpha, beta, j), f_inv(gamma)),
            ),
        },
        beta_g1: beta,
        delta_g1: delta,
        a_query: ua,
        b_g1_query: ub,
        b_g2_query: ub,
        h_query: h_query_spec(m, tau, delta),
        l_query: Seq::new(
            n_aux as nat,
            |t: int| f_mul(combined_term(ua, ub, uc, alpha, beta, n_inputs + t), f_inv(delta)),
        ),
    }
}

/// Whether the generator must reject the assignment outright: it cannot
/// be reduced (holes or dangling references), or it lacks even the
/// reserved constant-one public input.
pub open spec fn generator_rejects(pa: ProvingAssignment) -> bool {
    !reducible(pa) || pa.input_assignment.values@.len() == 0
}

/// Whether the system outgrows what the setup supports: an evaluation
/// domain beyond the field's two-adicity, or more auxiliary variables
/// than any domain could pair with.
pub open spec fn generator_oversized(pa: ProvingAssignment) -> bool {
    pa.at.values@.len() + pa.input_assignment.values@.len() > 0x800_0000
        || pa.aux_assignment.values@.len() > 0x800_0000
}

/// Maps a vector of exponents to affine points, element for element.
fn exps_to_points(v: &Vec<Fr>) -> (r: Vec<G1Affine>)
    requires
        frs_valid(v@),
    ensures
        points_valid(r@),
        r@.len() == v@.len(),
        points_view(r@) == frs_view(v@),
{
    let mut out: Vec<G1Affine> = Vec::new();
    let n = v.len();
    let mut i: usize = 0;
    while i < n
        invariant
            i <= n,
            n == v@.len(),
            frs_valid(v@),
            out@.len() == i,
            points_valid(out@),
            forall|j: int| 0 <= j < i ==> points_view(out@)[j] == frs_view(v@)[j],
        decreases n - i,
    {
        let p = G1Affine::from_exponent(v[i]);
        let ghost prev = out@;
        out.push(p);
        proof {
            assert forall|j: int| 0 <= j < i + 1 implies points_view(out@)[j] == frs_view(v@)[j] by {
                if j < i {
                    assert(points_view(out@)[j] == points_view(prev)[j]);
                } else {
                    assert(points_view(out@)[j] == p@);
                }
            }
        }
        i = i + 1;
    }
    proof {
        assert(points_view(out@) =~= frs_view(v@));
    }
    out
}

/// Folds one constraint matrix into the per-variable evaluations at the
/// secret point, returning exactly the spec-level fold.
fn accumulate_matrix(
    store: &OptionalVec<Vec<(Fr, Index)>>,
    lag: &Vec<Fr>,
    n_inputs: usize,
    u: &mut Vec<Fr>,
)
    requires
        store.wf(),
        store.holes@.len() == 0,
        forall|i: int| store.live_map().dom().contains(i) ==> crate::assignment::row_coeffs_valid(
            (#[trigger] store.live_map()[i])@,
        ),
        crate::qap::rows_in_bounds(
            rows_view(*store),
            n_inputs as int,
            old(u)@.len() - n_inputs,
        ),
        n_inputs <= old(u)@.len(),
        frs_valid(lag@),
        frs_valid(old(u)@),
        store.values@.len() <= lag@.len(),
    ensures
        frs_valid(final(u)@),
        final(u)@.len() == old(u)@.len(),
        frs_view(final(u)@) == acc_matrix(
            frs_view(old(u)@),
            rows_view(*store),
            frs_view(lag@),
            n_inputs as int,
        ),
{
    let ulen = u.len();
    let ncons = store.capacity();
    let mut i: usize = 0;
    while i < ncons
        invariant
            i <= ncons,
            ncons == store.values@.len(),
            ncons <= lag@.len(),
            store.wf(),
            store.holes@.len() == 0,
            forall|t: int| store.live_map().dom().contains(t)
                ==> crate::assignment::row_coeffs_valid((#[trigger] store.live_map()[t])@),
            crate::qap::rows_in_bounds(
                rows_view(*store),
                n_inputs as int,
                old(u)@.len() - n_inputs,
            ),
            n_inputs <= old(u)@.len(),
            frs_valid(lag@),
            frs_valid(u@),
            u@.len() == old(u)@.len(),
            ulen == old(u)@.len(),
            frs_view(u@) == acc_matrix(
                frs_view(old(u)@),
                rows_view(*store).take(i as int),
                frs_view(lag@),
                n_inputs as int,
            ),
        decreases ncons - i,
    {
        proof {
            assert(store.live_map().dom().contains(i as int));
        }
        let row = store.get(i);
        let li = lag[i];
        let ghost u_snap = frs_view(u@);
        proof {
            assert(rows_view(*store)[i as int] == row@);
            assert(row_in_bounds(row@, n_inputs as int, old(u)@.len() - n_inputs));
        }
        let nterms = row.len();
        let mut k: usize = 0;
        while k < nterms
            invariant
                k <= nterms,
                nterms == row@.len(),
                crate::assignment::row_coeffs_valid(row@),
                row_in_bounds(row@, n_inputs as int, ulen - n_inputs),
                n_inputs <= ulen,
                li.is_valid(),
                li@ == frs_view(lag@)[i as int],
                frs_valid(u@),
                u@.len() == ulen,
                frs_view(u@) == acc_row_terms(u_snap, row@.take(k as int), li@, n_inputs as int),
            decreases nterms - k,
        {
            let (coeff, ix) = row[k];
            proof {
                assert(match row@[k as int].1 {
                    Index::Input(jj) => (jj as int) < n_inputs as int,
                    Index::Aux(jj) => (jj as int) < ulen - n_inputs,
                });
            }
            let pos = match ix {
                Index::Input(j) => j,
                Index::Aux(j) => n_inputs + j,
            };
            let cur = u[pos];
            let ghost before = frs_view(u@);
            u.set(pos, cur.add(coeff.mul(li)));
            proof {
                assert(frs_view(u@) =~= before.update(
                    pos as int,
                    f_add(before[pos as int], f_mul(coeff@, li@)),
                ));
                assert(row@.take(k + 1).drop_last() =~= row@.take(k as int));
                assert(row@.take(k + 1).last() == row@[k as int]);
                assert(pos as int == global_index(row@[k as int].1, n_inputs as int));
            }
            k = k + 1;
        }
        proof {
            assert(row@.take(nterms as int) =~= row@);
            assert(rows_view(*store).take(i + 1).drop_last() =~= rows_view(*store).take(i as int));
            assert(rows_view(*store).take(i + 1).last() == rows_view(*store)[i as int]);
        }
        i = i + 1;
    }
    proof {
        assert(rows_view(*store).take(ncons as int) =~= rows_view(*store));
    }
}

/// A vector of field zeros.
fn zero_vec(n: usize) -> (r: Vec<Fr>)
    ensures
        frs_valid(r@),
        r@.len() == n,
        frs_view(r@) == Seq::new(n as nat, |v: int| 0int),
{
    let mut out: Vec<Fr> = Vec::new();
    let mut i: usize = 0;
    while i < n
        invariant
            i <= n,
            out@.len() == i,
            frs_valid(out@),
            forall|j: int| 0 <= j < i ==> frs_view(out@)[j] == 0,
        decreases n - i,
    {
        let ghost prev = out@;
        out.push(Fr::zero());
        proof {
            assert forall|j: int| 0 <= j < i + 1 implies frs_view(out@)[j] == 0 by {
                if j < i {
                    assert(frs_view(out@)[j] == frs_view(prev)[j]);
                } else {
                    assert(frs_view(out@)[j] == 0);
                }
            }
        }
        i = i + 1;
    }
    proof {
        assert(frs_view(out@) =~= Seq::new(n as nat, |v: int| 0int));
    }
    out
}

/// The Lagrange coefficients of every domain point at the secret point.
fn lagrange_at(domain: &EvaluationDomain, tau: Fr) -> (r: Vec<Fr>)
    requires
        domain.is_valid(),
        tau.is_valid(),
    ensures
        frs_valid(r@),
        r@.len() == domain.size,
        frs_view(r@) == lagrange_coeffs(domain.size as nat, tau@),
{
    let m = domain.size as usize;
    let w = domain.group_gen;
    let zt = domain.evaluate_vanishing_polynomial(tau);
    let m_fr = Fr::from_u64(domain.size);
    let mut lag: Vec<Fr> = Vec::new();
    let mut wi = Fr::one();
    let mut i: usize = 0;
    proof {
        vstd::arithmetic::power::lemma_pow0(w@);
        vstd::arithmetic::div_mod::lemma_small_mod(1nat, MODULUS as nat);
    }
    while i < m
        invariant
            i <= m,
            m == domain.size,
            domain.is_valid(),
            tau.is_valid(),
            zt.is_valid(),
            zt@ == f_sub(f_pow(tau@, m as nat), 1),
            m_fr.is_valid(),
            m_fr@ == (m as int) % (MODULUS as int),
            w.is_valid(),
            w@ == domain_gen(m as int),
            wi.is_valid(),
            wi@ == f_pow(w@, i as nat),
            lag@.len() == i,
            frs_valid(lag@),
            forall|j: int| 0 <= j < i ==> #[trigger] frs_view(lag@)[j] == lagrange_coeffs(
                m as nat,
                tau@,
            )[j],
        decreases m - i,
    {
        let denom = m_fr.mul(tau.sub(wi));
        let y = zt.mul(wi).mul(denom.inverse());
        let ghost prev = lag@;
        lag.push(y);
        proof {
            crate::field::lemma_f_pow_succ(w@, i as nat);
            assert forall|j: int| 0 <= j < i + 1 implies #[trigger] frs_view(lag@)[j]
                == lagrange_coeffs(m as nat, tau@)[j] by {
                if j < i {
                    assert(frs_view(lag@)[j] == frs_view(prev)[j]);
                } else {
                    assert(frs_view(lag@)[j] == y@);
                }
            }
        }
        wi = wi.mul(w);
        i = i + 1;
    }
    proof {
        assert(frs_view(lag@) =~= lagrange_coeffs(m as nat, tau@));
    }
    lag
}

/// Produces the exact prover key for a finished assignment and the five
/// secret setup scalars. Fails with `AssignmentMissing` exactly when the
/// assignment cannot be reduced or lacks the reserved constant-one
/// input, and with `PolynomialDegreeTooLarge` exactly when the system
/// outgrows the field's domains; otherwise the result is exactly
/// [`generated_params`] of the assignment and the secrets.
pub fn generate_from_assignment(
    pa: &ProvingAssignment,
    alpha: Fr,
    beta: Fr,
    gamma: Fr,
    delta: Fr,
    tau: Fr,
) -> (r: Result<Parameters, SynthesisError>)
    requires
        pa.wf(),
        alpha.is_valid(),
        beta.is_valid(),
        gamma.is_valid(),
        delta.is_valid(),
        tau.is_valid(),
    ensures
        generator_rejects(*pa) ==> r == Err::<Parameters, SynthesisError>(
            SynthesisError::AssignmentMissing,
        ),
        !generator_rejects(*pa) && generator_oversized(*pa) ==> r == Err::<
            Parameters,
            SynthesisError,
        >(SynthesisError::PolynomialDegreeTooLarge),
        !generator_rejects(*pa) && !generator_oversized(*pa) ==> r is Ok && r->Ok_0.is_valid()
            && r->Ok_0@ == generated_params(*pa, alpha@, beta@, gamma@, delta@, tau@),
{
    if !(pa.at.is_dense() && pa.bt.is_dense() && pa.ct.is_dense() && pa.input_assignment.is_dense()
        && pa.aux_assignment.is_dense()) {
        return Err(SynthesisError::AssignmentMissing);
    }
    let inputs = collect_dense(&pa.input_assignment);
    let auxs = collect_dense(&pa.aux_assignment);
    if !(rows_all_in_bounds(&pa.at, &inputs, &auxs) && rows_all_in_bounds(&pa.bt, &inputs, &auxs)
        && rows_all_in_bounds(&pa.ct, &inputs, &auxs)) {
        return Err(SynthesisError::AssignmentMissing);
    }
    let ncons = pa.at.capacity();
    let n_inputs = inputs.len();
    let n_aux = auxs.len();
    if n_inputs == 0 {
        return Err(SynthesisError::AssignmentMissing);
    }
    if ncons > 0x800_0000 || n_inputs > 0x800_0000 || n_aux > 0x800_0000 || ncons + n_inputs
        > 0x800_0000 {
        return Err(SynthesisError::PolynomialDegreeTooLarge);
    }
    let n_vars = n_inputs + n_aux;
    let domain = match EvaluationDomain::new(ncons + n_inputs) {
        Ok(d) => d,
        Err(e) => { return Err(e); },
    };
    let m = domain.size as usize;
    proof {
        assert(m as nat == reduction_domain_size(*pa));
        assert(m >= ncons + n_inputs);
    }
    let ghost target = generated_params(*pa, alpha@, beta@, gamma@, delta@, tau@);

    // Lagrange coefficients of every domain point at the secret point.
    let lag = lagrange_at(&domain, tau);

    // Per-variable evaluations of the three QAP polynomial families.
    let mut u_a = zero_vec(n_vars);
    let mut u_b = zero_vec(n_vars);
    let mut u_c = zero_vec(n_vars);
    accumulate_matrix(&pa.at, &lag, n_inputs, &mut u_a);
    accumulate_matrix(&pa.bt, &lag, n_inputs, &mut u_b);
    accumulate_matrix(&pa.ct, &lag, n_inputs, &mut u_c);

    // The input consistency rows contribute to the `A` family only.
    let ghost pre_ua = frs_view(u_a@);
    let mut j: usize = 0;
    while j < n_inputs
        invariant
            j <= n_inputs,
            n_inputs <= u_a@.len(),
            ncons <= 0x800_0000,
            n_inputs <= 0x800_0000,
            ncons + n_inputs <= lag@.len(),
            frs_valid(lag@),
            frs_valid(u_a@),
            u_a@.len() == n_inputs + n_aux,
            u_a@.len() == pre_ua.len(),
            forall|vv: int| 0 <= vv < j ==> #[trigger] frs_view(u_a@)[vv] == f_add(
                pre_ua[vv],
                frs_view(lag@)[ncons + vv],
            ),
            forall|vv: int| j <= vv < u_a@.len() ==> #[trigger] frs_view(u_a@)[vv] == pre_ua[vv],
        decreases n_inputs - j,
    {
        let cur = u_a[j];
        let ghost before = frs_view(u_a@);
        u_a.set(j, cur.add(lag[ncons + j]));
        proof {
            assert(frs_view(u_a@) =~= before.update(
                j as int,
                f_add(before[j as int], frs_view(lag@)[ncons + j]),
            ));
        }
        j = j + 1;
    }
    proof {
        assert(frs_view(u_a@) =~= add_input_consistency(
            pre_ua,
            frs_view(lag@),
            ncons as int,
            n_inputs as int,
        ));
    }

    let gamma_inv = gamma.inverse();
    let delta_inv = delta.inverse();

    // gamma_abc over the public inputs, l over the auxiliary variables.
    let ghost uav = frs_view(u_a@);
    let ghost ubv = frs_view(u_b@);
    let ghost ucv = frs_view(u_c@);
    let mut gamma_abc_exp: Vec<Fr> = Vec::new();
    let mut l_exp: Vec<Fr> = Vec::new();
    let mut v: usize = 0;
    while v < n_vars
        invariant
            v <= n_vars,
            n_vars == n_inputs + n_aux,
            u_a@.len() == n_vars,
            u_b@.len() == n_vars,
            u_c@.len() == n_vars,
            uav == frs_view(u_a@),
            ubv == frs_view(u_b@),
            ucv == frs_view(u_c@),
            frs_valid(u_a@),
            frs_valid(u_b@),
            frs_valid(u_c@),
            alpha.is_valid(),
            beta.is_valid(),
            gamma_inv.is_valid(),
            gamma_inv@ == f_inv(gamma@),
            delta_inv.is_valid(),
            delta_inv@ == f_inv(delta@),
            frs_valid(gamma_abc_exp@),
            frs_valid(l_exp@),
            gamma_abc_exp@.len() == if v <= n_inputs {
                v as int
            } else {
                n_inputs as int
            },
            l_exp@.len() == if v <= n_inputs {
                0int
            } else {
                v - n_inputs
            },
            forall|jj: int| 0 <= jj < gamma_abc_exp@.len() ==> #[trigger] frs_view(
                gamma_abc_exp@,
            )[jj] == f_mul(combined_term(uav, ubv, ucv, alpha@, beta@, jj), f_inv(gamma@)),
            forall|tt: int| 0 <= tt < l_exp@.len() ==> #[trigger] frs_view(l_exp@)[tt] == f_mul(
                combined_term(uav, ubv, ucv, alpha@, beta@, n_inputs + tt),
                f_inv(delta@),
            ),
        decreases n_vars - v,
    {
        let e = beta.mul(u_a[v]).add(alpha.mul(u_b[v])).add(u_c[v]);
        if v < n_inputs {
            let y = e.mul(gamma_inv);
            let ghost prev = gamma_abc_exp@;
            gamma_abc_exp.push(y);
            proof {
                assert forall|jj: int| 0 <= jj < gamma_abc_exp@.len() implies #[trigger] frs_view(
                    gamma_abc_exp@,
                )[jj] == f_mul(combined_term(uav, ubv, ucv, alpha@, beta@, jj), f_inv(gamma@)) by {
                    if jj < prev.len() {
                        assert(frs_view(gamma_abc_exp@)[jj] == frs_view(prev)[jj]);
                    } else {
                        assert(frs_view(gamma_abc_exp@)[jj] == y@);
                    }
                }
            }
        } else {
            let y = e.mul(delta_inv);
            let ghost prev = l_exp@;
            l_exp.push(y);
            proof {
                assert forall|tt: int| 0 <= tt < l_exp@.len() implies #[trigger] frs_view(
                    l_exp@,
                )[tt] == f_mul(
                    combined_term(uav, ubv, ucv, alpha@, beta@, n_inputs + tt),
                    f_inv(delta@),
                ) by {
                    if tt < prev.len() {
                        assert(frs_view(l_exp@)[tt] == frs_view(prev)[tt]);
                    } else {
                        assert(frs_view(l_exp@)[tt] == y@);
                    }
                }
            }
        }
        v = v + 1;
    }

    // h over the powers of the secret point times the vanishing value.
    let zt = domain.evaluate_vanishing_polynomial(tau);
    let mut h_exp: Vec<Fr> = Vec::new();
    let mut tp = Fr::one();
    let mut t: usize = 0;
    let h_len = m - 1;
    proof {
        vstd::arithmetic::power::lemma_pow0(tau@);
        vstd::arithmetic::div_mod::lemma_small_mod(1nat, MODULUS as nat);
    }
    while t < h_len
        invariant
            t <= h_len,
            h_len == m - 1,
            1 <= m,
            tau.is_valid(),
            zt.is_valid(),
            zt@ == f_sub(f_pow(tau@, m as nat), 1),
            delta_inv.is_valid(),
            delta_inv@ == f_inv(delta@),
            tp.is_valid(),
            tp@ == f_pow(tau@, t as nat),
            h_exp@.len() == t,
            frs_valid(h_exp@),
            forall|jj: int| 0 <= jj < t ==> #[trigger] frs_view(h_exp@)[jj] == h_query_spec(
                m as nat,
                tau@,
                delta@,
            )[jj],
        decreases h_len - t,
    {
        let y = tp.mul(zt).mul(delta_inv);
        let ghost prev = h_exp@;
        h_exp.push(y);
        proof {
            crate::field::lemma_f_pow_succ(tau@, t as nat);
            assert forall|jj: int| 0 <= jj < t + 1 implies #[trigger] frs_view(h_exp@)[jj]
                == h_query_spec(m as nat, tau@, delta@)[jj] by {
                if jj < t {
                    assert(frs_view(h_exp@)[jj] == frs_view(prev)[jj]);
                } else {
                    assert(frs_view(h_exp@)[jj] == y@);
                }
            }
        }
        tp = tp.mul(tau);
        t = t + 1;
    }

    let vk = VerifyingKey {
        alpha_g1: G1Affine::from_exponent(alpha),
        beta_g2: G1Affine::from_exponent(beta),
        gamma_g2: G1Affine::from_exponent(gamma),
        delta_g2: G1Affine::from_exponent(delta),
        gamma_abc_g1: exps_to_points(&gamma_abc_exp),
    };
    let params = Parameters {
        vk,
        beta_g1: G1Affine::from_exponent(beta),
        delta_g1: G1Affine::from_exponent(delta),
        a_query: exps_to_points(&u_a),
        b_g1_query: exps_to_points(&u_b),
        b_g2_query: exps_to_points(&u_b),
        h_query: exps_to_points(&h_exp),
        l_query: exps_to_points(&l_exp),
    };
    proof {
        assert(params@.vk.gamma_abc_g1 =~= target.vk.gamma_abc_g1);
        assert(params@.a_query =~= target.a_query);
        assert(params@.b_g1_query =~= target.b_g1_query);
        assert(params@.b_g2_query =~= target.b_g2_query);
        assert(params@.h_query =~= target.h_query);
        assert(params@.l_query =~= target.l_query);
    }
    Ok(params)
}

/// Produces the full prover key for a circuit from the five secret setup
/// scalars: one synthesis pass, then [`generate_from_assignment`], which
/// pins every query vector exactly. Fails when the circuit's own
/// synthesis fails or as `generate_from_assignment` does.
pub fn generate_parameters<C: ConstraintSynthesizer>(
    circuit: &C,
    alpha: Fr,
    beta: Fr,
    gamma: Fr,
    delta: Fr,
    tau: Fr,
) -> (r: Result<Parameters, SynthesisError>)
    requires
        alpha.is_valid(),
        beta.is_valid(),
        gamma.is_valid(),
        delta.is_valid(),
        tau.is_valid(),
    ensures
        r is Ok ==> r->Ok_0.is_valid() && exists|pa: ProvingAssignment| pa.wf() && r->Ok_0@
            == #[trigger] generated_params(pa, alpha@, beta@, gamma@, delta@, tau@),
{
    let pa = match crate::prover::synthesize_circuit(circuit) {
        Ok(pa) => pa,
        Err(e) => { return Err(e); },
    };
    let r = generate_from_assignment(&pa, alpha, beta, gamma, delta, tau);
    proof {
        if r is Ok {
            assert(pa.wf() && r->Ok_0@ == generated_params(
                pa,
                alpha@,
                beta@,
                gamma@,
                delta@,
                tau@,
            ));
        }
    }
    r
}

} // verus!
