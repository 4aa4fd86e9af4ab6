//! The prover's group-element accumulation.
//!
//! A proof is a deterministic function of the circuit, the parameters and
//! the two blinding scalars `r` and `s` (zero for a non-hiding proof):
//! synthesize the circuit into a fresh recorder with the constant-one
//! input at index zero, reduce it to the QAP quotient `H`, and accumulate
//! the proof elements by multi-scalar multiplication against the
//! parameters' query vectors. The accumulation of each element follows
//! one shared pattern: a blinded starting point, the query's first entry,
//! the MSM of the rest against the witness, and the fixed key parameter.

use vstd::prelude::*;
use rand::distributions::{Distribution, Standard};
use crate::assignment::{ConstraintSynthesizer, ProvingAssignment};
use crate::field::{Fr, f_add, f_mul, f_sub, frs_view};
use crate::group::G1Projective;
use crate::keys::{Parameters, ParametersModel, Proof, points_view, points_valid};
use crate::msm::{msm_value, multi_scalar_mul, scalars_valid, scalars_view};
use crate::qap::{
    collect_dense, dense_view, reducible, reduction_domain_size, rows_view, witness_map,
    witness_map_spec,
};
use crate::r1cs::SynthesisError;
use crate::group::G1Affine;

verus! {

/// Relies on rand's `random`, which draws a value from its thread-local
/// generator; nothing is promised of the result.
pub assume_specification<T>[ rand::random::<T> ]() -> (r: T)
    where
        Standard: Distribution<T>,
;

/// The flat witness vector the accumulations fold over: the public
/// inputs after the reserved constant-one entry, then every auxiliary
/// value, in allocation order.
pub open spec fn witness_scalars(inputs: Seq<int>, auxs: Seq<int>) -> Seq<int> {
    (if inputs.len() > 0 {
        inputs.skip(1)
    } else {
        inputs
    }) + auxs
}

/// The shared accumulation pattern: the blinded starting point, the
/// query's first entry, the MSM of the remaining query against the
/// witness, and the fixed key parameter.
pub open spec fn coeff_value(initial: int, query: Seq<int>, vk_param: int, scalars: Seq<int>) -> int {
    f_add(f_add(f_add(initial, query[0]), msm_value(query.drop_first(), scalars)), vk_param)
}

/// The proof's `A` element: `r * delta + alpha + <witness, a_query>`.
pub open spec fn proof_a_value(pm: ParametersModel, asg: Seq<int>, r: int) -> int {
    coeff_value(f_mul(pm.delta_g1, r), pm.a_query, pm.vk.alpha_g1, asg)
}

/// The `B` accumulation on the `G1` side, skipped (as the identity) for
/// a non-hiding proof with `r` zero.
pub open spec fn proof_b_g1_value(pm: ParametersModel, asg: Seq<int>, r: int, s: int) -> int {
    if r == 0 {
        0
    } else {
        coeff_value(f_mul(pm.delta_g1, s), pm.b_g1_query, pm.beta_g1, asg)
    }
}

/// The proof's `B` element, always accumulated on the `G2` side.
pub open spec fn proof_b_value(pm: ParametersModel, asg: Seq<int>, s: int) -> int {
    coeff_value(f_mul(pm.vk.delta_g2, s), pm.b_g2_query, pm.vk.beta_g2, asg)
}

/// The proof's `C` element:
/// `s * A + r * B_g1 - r * s * delta + <aux, l_query> + <H, h_query>`,
/// folded in exactly that order.
pub open spec fn proof_c_value(
    pm: ParametersModel,
    asg: Seq<int>,
    auxs: Seq<int>,
    h: Seq<int>,
    r: int,
    s: int,
) -> int {
    f_add(
        f_add(
            f_sub(
                f_add(
                    f_mul(proof_a_value(pm, asg, r), s),
                    f_mul(proof_b_g1_value(pm, asg, r, s), r),
                ),
                f_mul(f_mul(pm.delta_g1, r), s),
            ),
            msm_value(pm.l_query, auxs),
        ),
        msm_value(pm.h_query, h),
    )
}

/// Whether the query vectors fit the finished assignment: one entry per
/// variable in the three main queries, one per auxiliary variable in the
/// `l` query, and no more `h` entries than quotient coefficients.
pub open spec fn queries_match(pm: ParametersModel, n_inputs: int, n_aux: int, m: int) -> bool {
    &&& pm.a_query.len() == n_inputs + n_aux
    &&& pm.b_g1_query.len() == n_inputs + n_aux
    &&& pm.b_g2_query.len() == n_inputs + n_aux
    &&& pm.l_query.len() <= n_aux
    &&& pm.h_query.len() <= m
    &&& n_inputs >= 1
}

/// Whether a proof is exactly what the accumulation produces from a
/// finished assignment, parameters and blinding scalars.
pub open spec fn proof_matches(
    pa: ProvingAssignment,
    pm: ParametersModel,
    r: int,
    s: int,
    proof: Proof,
) -> bool {
    let inputs = dense_view(pa.input_assignment);
    let auxs = dense_view(pa.aux_assignment);
    let asg = witness_scalars(inputs, auxs);
    let h = witness_map_spec(
        rows_view(pa.at),
        rows_view(pa.bt),
        rows_view(pa.ct),
        inputs,
        auxs,
        reduction_domain_size(pa),
    );
    &&& proof.compressed
    &&& proof@.a == proof_a_value(pm, asg, r)
    &&& proof@.b == proof_b_value(pm, asg, s)
    &&& proof@.c == proof_c_value(pm, asg, auxs, h, r, s)
}

/// The query tail: every entry after the first.
fn query_tail(v: &Vec<G1Affine>) -> (r: Vec<G1Affine>)
    requires
        v@.len() >= 1,
    ensures
        r@ == v@.drop_first(),
{
    let mut out: Vec<G1Affine> = Vec::new();
    let n = v.len();
    let mut i: usize = 1;
    while i < n
        invariant
            1 <= i <= n,
            n == v@.len(),
            out@.len() == i - 1,
            forall|j: int| 0 <= j < i - 1 ==> out@[j] == v@[j + 1],
        decreases n - i,
    {
        out.push(v[i]);
        i = i + 1;
    }
    proof {
        assert(out@ =~= v@.drop_first());
    }
    out
}

/// The canonical scalar representations of a vector of field elements.
fn to_reprs(v: &Vec<Fr>) -> (r: Vec<u64>)
    requires
        crate::field::frs_valid(v@),
    ensures
        scalars_valid(r@),
        scalars_view(r@) == frs_view(v@),
        r@.len() == v@.len(),
{
    let mut out: Vec<u64> = Vec::new();
    let n = v.len();
    let mut i: usize = 0;
    while i < n
        invariant
            i <= n,
            n == v@.len(),
            crate::field::frs_valid(v@),
            out@.len() == i,
            forall|j: int| 0 <= j < i ==> (#[trigger] out@[j]) == v@[j].value,
        decreases n - i,
    {
        out.push(v[i].into_repr());
        i = i + 1;
    }
    proof {
        assert(scalars_view(out@) =~= frs_view(v@));
    }
    out
}

/// The flat witness vector as scalar representations: the inputs after
/// the constant-one entry, then the auxiliary values.
fn witness_reprs(inputs: &Vec<Fr>, auxs: &Vec<Fr>) -> (r: Vec<u64>)
    requires
        crate::field::frs_valid(inputs@),
        crate::field::frs_valid(auxs@),
    ensures
        scalars_valid(r@),
        scalars_view(r@) == witness_scalars(frs_view(inputs@), frs_view(auxs@)),
        r@.len() == (if inputs@.len() > 0 {
            inputs@.len() - 1
        } else {
            0int
        }) + auxs@.len(),
{
    let mut out: Vec<u64> = Vec::new();
    let ni = inputs.len();
    let mut i: usize = 1;
    while i < ni
        invariant
            1 <= i <= ni || (ni == 0 && i == 1),
            ni == inputs@.len(),
            crate::field::frs_valid(inputs@),
            out@.len() == if ni == 0 {
                0int
            } else {
                i - 1
            },
            forall|j: int| 0 <= j < out@.len() ==> (#[trigger] out@[j]) == inputs@[j + 1].value,
        decreases ni - i,
    {
        out.push(inputs[i].into_repr());
        i = i + 1;
    }
    let na = auxs.len();
    let ghost base = out@.len() as int;
    let mut k: usize = 0;
    while k < na
        invariant
            k <= na,
            na == auxs@.len(),
            crate::field::frs_valid(inputs@),
            crate::field::frs_valid(auxs@),
            base == if inputs@.len() == 0 {
                0int
            } else {
                inputs@.len() - 1
            },
            forall|j: int| 0 <= j < base ==> (#[trigger] out@[j]) == inputs@[j + 1].value,
            out@.len() == base + k,
            forall|t: int| base <= t < base + k ==> (#[trigger] out@[t]) == auxs@[t - base].value,
        decreases na - k,
    {
        out.push(auxs[k].into_repr());
        k = k + 1;
    }
    proof {
        assert(scalars_view(out@) =~= witness_scalars(frs_view(inputs@), frs_view(auxs@)));
    }
    out
}

/// One accumulation: the blinded starting point, the query's first
/// entry, the MSM of the rest against the witness, and the fixed key
/// parameter, in that order.
fn calculate_coeff(
    initial: G1Projective,
    query: &Vec<G1Affine>,
    vk_param: G1Affine,
    assignment: &Vec<u64>,
) -> (res: G1Projective)
    requires
        initial.is_valid(),
        points_valid(query@),
        vk_param.is_valid(),
        scalars_valid(assignment@),
        query@.len() >= 1,
        query@.len() - 1 <= assignment@.len(),
    ensures
        res.is_valid(),
        res@ == coeff_value(
            initial@,
            points_view(query@),
            vk_param@,
            scalars_view(assignment@),
        ),
{
    let el = query[0];
    let tail = query_tail(query);
    let acc = multi_scalar_mul(&tail, assignment);
    let res = initial.add_mixed(&el);
    let res = res.add(acc);
    let res = res.add_mixed(&vk_param);
    proof {
        assert(points_view(tail@) =~= points_view(query@).drop_first());
        assert(points_view(query@)[0] == query@[0]@);
    }
    res
}

/// Synthesizes a circuit into a fresh recorder, with the constant-one
/// public input allocated first so that its index is always zero.
pub fn synthesize_circuit<C: ConstraintSynthesizer>(circuit: &C) -> (r: Result<
    ProvingAssignment,
    SynthesisError,
>)
    ensures
        r is Ok ==> r->Ok_0.wf(),
{
    let mut prover = ProvingAssignment::new();
    let _ = prover.alloc_input(Fr::one());
    match circuit.generate_constraints(&mut prover) {
        Ok(_) => Ok(prover),
        Err(e) => Err(e),
    }
}

/// Accumulates a proof from a finished assignment. Fails exactly as the
/// witness map does (a store left with holes, a row referring to a
/// missing variable, or a domain beyond the field's two-adicity) or,
/// once the quotient exists, with `MalformedVerifyingKey` when the query
/// vectors do not fit the assignment; otherwise the proof's three
/// elements are exactly the accumulated values.
pub fn prove_from_assignment(pa: &ProvingAssignment, params: &Parameters, r: Fr, s: Fr) -> (res:
    Result<Proof, SynthesisError>)
    requires
        pa.wf(),
        params.is_valid(),
        r.is_valid(),
        s.is_valid(),
    ensures
        !reducible(*pa) ==> res == Err::<Proof, SynthesisError>(SynthesisError::AssignmentMissing),
        reducible(*pa) && pa.at.values@.len() + pa.input_assignment.values@.len() > 0x800_0000
            ==> res == Err::<Proof, SynthesisError>(SynthesisError::PolynomialDegreeTooLarge),
        reducible(*pa) && pa.at.values@.len() + pa.input_assignment.values@.len() <= 0x800_0000
            && !queries_match(
            params@,
            pa.input_assignment.values@.len() as int,
            pa.aux_assignment.values@.len() as int,
            reduction_domain_size(*pa) as int,
        ) ==> res == Err::<Proof, SynthesisError>(SynthesisError::MalformedVerifyingKey),
        reducible(*pa) && pa.at.values@.len() + pa.input_assignment.values@.len() <= 0x800_0000
            && queries_match(
            params@,
            pa.input_assignment.values@.len() as int,
            pa.aux_assignment.values@.len() as int,
            reduction_domain_size(*pa) as int,
        ) ==> res is Ok && res->Ok_0.is_valid() && proof_matches(
            *pa,
            params@,
            r@,
            s@,
            res->Ok_0,
        ),
{
    let h = match witness_map(pa) {
        Ok(h) => h,
        Err(e) => { return Err(e); },
    };
    let inputs = collect_dense(&pa.input_assignment);
    let auxs = collect_dense(&pa.aux_assignment);
    let n_inputs = inputs.len();
    let n_aux = auxs.len();
    let al = params.a_query.len();
    if n_inputs == 0 || al < n_inputs || al - n_inputs != n_aux || params.b_g1_query.len() != al
        || params.b_g2_query.len() != al || params.l_query.len() > n_aux || params.h_query.len()
        > h.len() {
        return Err(SynthesisError::MalformedVerifyingKey);
    }
    proof {
        assert(h@.len() == reduction_domain_size(*pa));
    }
    let assignment = witness_reprs(&inputs, &auxs);
    proof {
        assert(assignment@.len() == al - 1);
    }
    let aux_reprs = to_reprs(&auxs);
    let h_reprs = to_reprs(&h);

    // A
    let r_g1 = params.delta_g1.mul(r);
    let g_a = calculate_coeff(r_g1, &params.a_query, params.vk.alpha_g1, &assignment);

    // B in G1, skipped as the identity for the non-hiding case
    let g1_b = if !r.is_zero() {
        let s_g1 = params.delta_g1.mul(s);
        calculate_coeff(s_g1, &params.b_g1_query, params.beta_g1, &assignment)
    } else {
        G1Projective::zero()
    };

    // B in G2, always
    let s_g2 = params.vk.delta_g2.mul(s);
    let g2_b = calculate_coeff(s_g2, &params.b_g2_query, params.vk.beta_g2, &assignment);

    // C
    let h_acc = multi_scalar_mul(&params.h_query, &h_reprs);
    let l_aux_acc = multi_scalar_mul(&params.l_query, &aux_reprs);
    let s_g_a = g_a.mul(s);
    let r_g1_b = g1_b.mul(r);
    let r_s_delta_g1 = params.delta_g1.into_projective().mul(r).mul(s);
    let g_c = s_g_a.add(r_g1_b).sub(r_s_delta_g1).add(l_aux_acc).add(h_acc);

    let proof = Proof {
        a: g_a.into_affine(),
        b: g2_b.into_affine(),
        c: g_c.into_affine(),
        compressed: true,
    };
    Ok(proof)
}

/// Creates a proof for the circuit with the given blinding scalars: the
/// whole pipeline, from synthesis through the QAP reduction to the
/// accumulated proof. Deterministic in its arguments; the only failures
/// are the circuit's own synthesis failure and the reduction and key
/// mismatches reported by the accumulation.
pub fn create_proof<C: ConstraintSynthesizer>(
    circuit: &C,
    params: &Parameters,
    r: Fr,
    s: Fr,
) -> (res: Result<Proof, SynthesisError>)
    requires
        params.is_valid(),
        r.is_valid(),
        s.is_valid(),
    ensures
        res is Ok ==> res->Ok_0.is_valid() && exists|pa: ProvingAssignment| pa.wf()
            && #[trigger] proof_matches(pa, params@, r@, s@, res->Ok_0),
{
    let pa = match synthesize_circuit(circuit) {
        Ok(pa) => pa,
        Err(e) => { return Err(e); },
    };
    let res = prove_from_assignment(&pa, params, r, s);
    proof {
        if res is Ok {
            assert(pa.wf() && proof_matches(pa, params@, r@, s@, res->Ok_0));
        }
    }
    res
}

/// A non-hiding proof: both blinding scalars fixed to zero. Meant for
/// testing and debugging, not for zero-knowledge use.
pub fn create_proof_no_zk<C: ConstraintSynthesizer>(circuit: &C, params: &Parameters) -> (res:
    Result<Proof, SynthesisError>)
    requires
        params.is_valid(),
    ensures
        res is Ok ==> res->Ok_0.is_valid() && exists|pa: ProvingAssignment| pa.wf()
            && #[trigger] proof_matches(pa, params@, 0, 0, res->Ok_0),
{
    create_proof(circuit, params, Fr::zero(), Fr::zero())
}

/// A zero-knowledge proof with randomly drawn blinding scalars: two
/// machine words from the thread-local generator, reduced into the
/// field (close to uniform; the reduction's bias is a property of the
/// instantiated field, not of the protocol). Acceptance by the verifier
/// does not depend on which scalars were drawn.
pub fn create_random_proof<C: ConstraintSynthesizer>(circuit: &C, params: &Parameters) -> (res:
    Result<Proof, SynthesisError>)
    requires
        params.is_valid(),
    ensures
        res is Ok ==> res->Ok_0.is_valid() && exists|pa: ProvingAssignment, r: int, s: int|
            pa.wf() && #[trigger] proof_matches(pa, params@, r, s, res->Ok_0),
{
    let r = Fr::from_u64(rand::random::<u64>());
    let s = Fr::from_u64(rand::random::<u64>());
    let res = create_proof(circuit, params, r, s);
    proof {
        if res is Ok {
            let pa = choose|pa: ProvingAssignment| pa.wf() && #[trigger] proof_matches(
                pa,
                params@,
                r@,
                s@,
                res->Ok_0,
            );
            assert(pa.wf() && proof_matches(pa, params@, r@, s@, res->Ok_0));
        }
    }
    res
}

} // verus!
