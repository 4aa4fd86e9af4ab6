//! A small demonstration circuit.
//!
//! The circuit enforces one multiplication: two private witnesses whose
//! product must equal the single public input. Synthesis fails with
//! `AssignmentMissing` when a witness is absent and with `Unsatisfiable`
//! when the witnesses do not multiply to the claimed public value, so an
//! inconsistent witness is rejected at synthesis rather than silently
//! turned into an unsound proof.

use vstd::prelude::*;
use crate::assignment::{ConstraintSynthesizer, ProvingAssignment};
use crate::field::{Fr, MODULUS, f_mul};
use crate::r1cs::{LinearCombination, SynthesisError};

verus! {

/// A circuit enforcing `a * b = c` with private `a`, `b` and public `c`.
#[derive(Clone, Copy, Debug)]
pub struct MulCircuit {
    pub a: Option<Fr>,
    pub b: Option<Fr>,
    pub c: Option<Fr>,
}

impl MulCircuit {
    /// Whether the witness is complete: all three values present.
    pub open spec fn witness_complete(self) -> bool {
        self.a is Some && self.b is Some && self.c is Some
    }

    /// Whether the complete witness is consistent: the product of the
    /// private values equals the claimed public output, all reduced into
    /// the field.
    pub open spec fn witness_consistent(self) -> bool {
        f_mul(
            self.a->Some_0.value as int % (MODULUS as int),
            self.b->Some_0.value as int % (MODULUS as int),
        ) == self.c->Some_0.value as int % (MODULUS as int)
    }
}

impl ConstraintSynthesizer for MulCircuit {
    /// Allocates the two private witnesses and the public product, and
    /// enforces the single multiplication constraint. Fails exactly when
    /// a value is missing or the witnesses do not match the claimed
    /// product, leaving the recorder untouched; on success one
    /// constraint, one public input and two auxiliary variables are
    /// added.
    fn generate_constraints(&self, cs: &mut ProvingAssignment) -> (r: Result<
        (),
        SynthesisError,
    >)
        ensures
            !self.witness_complete() ==> r == Err::<(), SynthesisError>(
                SynthesisError::AssignmentMissing,
            ) && *final(cs) == *old(cs),
            self.witness_complete() && !self.witness_consistent() ==> r == Err::<
                (),
                SynthesisError,
            >(SynthesisError::Unsatisfiable) && *final(cs) == *old(cs),
            self.witness_complete() && self.witness_consistent() ==> r is Ok
                && final(cs).at.spec_len() == old(cs).at.spec_len() + 1
                && final(cs).input_assignment.spec_len() == old(cs).input_assignment.spec_len()
                + 1 && final(cs).aux_assignment.spec_len() == old(cs).aux_assignment.spec_len()
                + 2,
    {
        let a = match self.a {
            Some(a) => Fr::from_u64(a.value),
            None => { return Err(SynthesisError::AssignmentMissing); },
        };
        let b = match self.b {
            Some(b) => Fr::from_u64(b.value),
            None => { return Err(SynthesisError::AssignmentMissing); },
        };
        let c = match self.c {
            Some(c) => Fr::from_u64(c.value),
            None => { return Err(SynthesisError::AssignmentMissing); },
        };
        if !(a.mul(b) == c) {
            return Err(SynthesisError::Unsatisfiable);
        }
        let va = cs.alloc_aux(a);
        let vb = cs.alloc_aux(b);
        let vc = cs.alloc_input(c);
        let one = Fr::one();
        let mut lc_a = LinearCombination::zero();
        lc_a.add_term(one, va);
        let mut lc_b = LinearCombination::zero();
        lc_b.add_term(one, vb);
        let mut lc_c = LinearCombination::zero();
        lc_c.add_term(one, vc);
        cs.enforce(lc_a, lc_b, lc_c);
        Ok(())
    }
}

} // verus!
