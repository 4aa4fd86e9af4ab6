//! The verifier's pairing check.
//!
//! A proof `(A, B, C)` for public inputs `x` is accepted exactly when
//! the single multi-pairing product
//! `e(A, B) * e(acc, -gamma) * e(C, -delta)` equals the fixed pairing
//! `e(alpha, beta)`, where
//! `acc = gamma_abc[0] + sum_i x[i] * gamma_abc[i + 1]` and the target
//! group is written multiplicatively. The fixed pairing and the negated
//! points are precomputed once into a `PreparedVerifyingKey`.

use vstd::prelude::*;
use crate::field::{Fr, f_add, f_mul, f_neg};
use crate::group::{G1Affine, G2Affine, G1Projective, Gt, pairing};
use crate::keys::{Parameters, Proof, ProofModel, VerifyingKey, VerifyingKeyModel};
use crate::r1cs::SynthesisError;

verus! {

/// A verification key with the verifier's fixed work precomputed: the
/// pairing of `alpha` and `beta`, and the negated `gamma` and `delta`
/// points prepared for repeated pairing use.
#[derive(Clone, Debug)]
pub struct PreparedVerifyingKey {
    pub vk: VerifyingKey,
    pub alpha_g1_beta_g2: Gt,
    pub gamma_g2_neg_pc: G2Affine,
    pub delta_g2_neg_pc: G2Affine,
}

impl PreparedVerifyingKey {
    /// The precomputed parts agree with the embedded key.
    pub open spec fn is_valid(self) -> bool {
        &&& self.vk.is_valid()
        &&& self.alpha_g1_beta_g2.is_valid()
        &&& self.gamma_g2_neg_pc.is_valid()
        &&& self.delta_g2_neg_pc.is_valid()
        &&& self.alpha_g1_beta_g2@ == f_mul(self.vk@.alpha_g1, self.vk@.beta_g2)
        &&& self.gamma_g2_neg_pc@ == f_neg(self.vk@.gamma_g2)
        &&& self.delta_g2_neg_pc@ == f_neg(self.vk@.delta_g2)
    }

    /// The fixed input terms of the verification equation.
    pub fn gamma_abc_g1(&self) -> (r: &Vec<G1Affine>)
        ensures
            r@ == self.vk.gamma_abc_g1@,
    {
        &self.vk.gamma_abc_g1
    }
}

/// Derives the verifier-only precomputation from a verification key:
/// the pairing `e(alpha, beta)` and the negations of `gamma` and
/// `delta`, computed once and reused across verifications.
pub fn prepare_verifying_key(vk: VerifyingKey) -> (r: PreparedVerifyingKey)
    requires
        vk.is_valid(),
    ensures
        r.is_valid(),
        r.vk == vk,
{
    let alpha_g1_beta_g2 = pairing(&vk.alpha_g1, &vk.beta_g2);
    let gamma_g2_neg_pc = vk.gamma_g2.neg();
    let delta_g2_neg_pc = vk.delta_g2.neg();
    PreparedVerifyingKey { vk, alpha_g1_beta_g2, gamma_g2_neg_pc, delta_g2_neg_pc }
}

/// What the `From` conversions build: the precomputation over the key's
/// stored exponents reduced into the field, so the conversion is total.
/// On a well-formed key it coincides with [`prepare_verifying_key`].
pub open spec fn prepared_from_spec(vk: VerifyingKey) -> PreparedVerifyingKey {
    let q = crate::field::MODULUS as int;
    let gn = f_neg(vk.gamma_g2.x as int % q);
    let dn = f_neg(vk.delta_g2.x as int % q);
    PreparedVerifyingKey {
        alpha_g1_beta_g2: Gt {
            value: f_mul(vk.alpha_g1.x as int % q, vk.beta_g2.x as int % q) as u64,
        },
        gamma_g2_neg_pc: G1Affine { x: gn as u64, y: crate::group::affine_y(gn) as u64 },
        delta_g2_neg_pc: G1Affine { x: dn as u64, y: crate::group::affine_y(dn) as u64 },
        vk,
    }
}

impl From<VerifyingKey> for PreparedVerifyingKey {
    /// The verifier-only precomputation, derived once; the key's stored
    /// exponents are reduced into the field first, so the conversion is
    /// total and agrees with `prepare_verifying_key` on well-formed keys.
    fn from(other: VerifyingKey) -> (r: PreparedVerifyingKey) {
        let a = Fr::from_u64(other.alpha_g1.x);
        let b = Fr::from_u64(other.beta_g2.x);
        let ab = a.mul(b);
        let gneg = G1Affine::from_exponent(Fr::from_u64(other.gamma_g2.x).neg());
        let dneg = G1Affine::from_exponent(Fr::from_u64(other.delta_g2.x).neg());
        PreparedVerifyingKey {
            vk: other,
            alpha_g1_beta_g2: Gt { value: ab.value },
            gamma_g2_neg_pc: gneg,
            delta_g2_neg_pc: dneg,
        }
    }
}

impl vstd::std_specs::convert::FromSpecImpl<VerifyingKey> for PreparedVerifyingKey {
    open spec fn obeys_from_spec() -> bool {
        true
    }

    open spec fn from_spec(other: VerifyingKey) -> PreparedVerifyingKey {
        prepared_from_spec(other)
    }
}

impl From<Parameters> for PreparedVerifyingKey {
    /// The verifier-only precomputation of the parameters' embedded key.
    fn from(other: Parameters) -> (r: PreparedVerifyingKey) {
        PreparedVerifyingKey::from(other.vk)
    }
}

impl vstd::std_specs::convert::FromSpecImpl<Parameters> for PreparedVerifyingKey {
    open spec fn obeys_from_spec() -> bool {
        true
    }

    open spec fn from_spec(other: Parameters) -> PreparedVerifyingKey {
        prepared_from_spec(other.vk)
    }
}

/// The inner-product accumulator of the verification equation:
/// `gamma_abc[0] + sum_i inputs[i] * gamma_abc[i + 1]`, summed over the
/// first `k` inputs.
pub open spec fn input_acc(gamma_abc: Seq<int>, inputs: Seq<int>, k: int) -> int
    decreases k,
{
    if k <= 0 {
        gamma_abc[0]
    } else {
        f_add(input_acc(gamma_abc, inputs, k - 1), f_mul(inputs[k - 1], gamma_abc[k]))
    }
}

/// The verification equation, as one multi-pairing product check: the
/// product of the pairing of the proof's `A` and `B`, the input
/// accumulator paired with the negated `gamma`, and `C` paired with the
/// negated `delta` must equal the fixed pairing of `alpha` and `beta`.
pub open spec fn verification_equation(
    vkm: VerifyingKeyModel,
    inputs: Seq<int>,
    proof: ProofModel,
) -> bool {
    f_add(
        f_mul(proof.a, proof.b),
        f_add(
            f_mul(input_acc(vkm.gamma_abc_g1, inputs, inputs.len() as int), f_neg(vkm.gamma_g2)),
            f_mul(proof.c, f_neg(vkm.delta_g2)),
        ),
    ) == f_mul(vkm.alpha_g1, vkm.beta_g2)
}

/// Every public input is a canonical field element.
pub open spec fn inputs_valid(inputs: Seq<Fr>) -> bool {
    forall|i: int| 0 <= i < inputs.len() ==> (#[trigger] inputs[i]).is_valid()
}

/// The public inputs as mathematical integers.
pub open spec fn inputs_view(inputs: Seq<Fr>) -> Seq<int> {
    Seq::new(inputs.len(), |i: int| inputs[i]@)
}

/// Decides a proof against prepared verification material and the public
/// inputs. Fails only when the input vector's length does not match the
/// key (one fixed term plus one per input); a proof that merely fails
/// the pairing equation yields `Ok(false)`, not an error.
pub fn verify_proof(
    pvk: &PreparedVerifyingKey,
    proof: &Proof,
    public_inputs: &Vec<Fr>,
) -> (r: Result<bool, SynthesisError>)
    requires
        pvk.is_valid(),
        proof.is_valid(),
        inputs_valid(public_inputs@),
    ensures
        public_inputs@.len() + 1 != pvk.vk@.gamma_abc_g1.len() ==> r == Err::<
            bool,
            SynthesisError,
        >(SynthesisError::MalformedVerifyingKey),
        public_inputs@.len() + 1 == pvk.vk@.gamma_abc_g1.len() ==> r == Ok::<
            bool,
            SynthesisError,
        >(verification_equation(pvk.vk@, inputs_view(public_inputs@), proof@)),
{
    let glen = pvk.vk.gamma_abc_g1.len();
    if glen == 0 || public_inputs.len() != glen - 1 {
        return Err(SynthesisError::MalformedVerifyingKey);
    }
    let gamma_abc = pvk.gamma_abc_g1();
    let mut acc: G1Projective = gamma_abc[0].into_projective();
    let n = public_inputs.len();
    let mut i: usize = 0;
    while i < n
        invariant
            i <= n,
            n == public_inputs@.len(),
            n + 1 == pvk.vk.gamma_abc_g1@.len(),
            pvk.is_valid(),
            inputs_valid(public_inputs@),
            acc.is_valid(),
            acc@ == input_acc(
                pvk.vk@.gamma_abc_g1,
                inputs_view(public_inputs@),
                i as int,
            ),
        decreases n - i,
    {
        let term = pvk.vk.gamma_abc_g1[i + 1].mul(public_inputs[i]);
        acc = acc.add(term);
        proof {
            crate::field::lemma_f_mul_comm(
                pvk.vk@.gamma_abc_g1[i + 1],
                inputs_view(public_inputs@)[i as int],
            );
        }
        i = i + 1;
    }
    let e_ab = pairing(&proof.a, &proof.b);
    let acc_affine = acc.into_affine();
    let e_acc = pairing(&acc_affine, &pvk.gamma_g2_neg_pc);
    let e_c = pairing(&proof.c, &pvk.delta_g2_neg_pc);
    let test = e_ab.mul(e_acc.mul(e_c));
    Ok(test.value == pvk.alpha_g1_beta_g2.value)
}

} // verus!
