//! Rank-1 constraint system vocabulary.
//!
//! A constraint relates three linear combinations `A`, `B`, `C` of the
//! variables by `A * B = C`. Variables are tagged indices: public inputs
//! and private (auxiliary) witnesses live in two separate index spaces,
//! distinguished by the `Index` variant and never by convention.

use vstd::prelude::*;
use crate::field::{Fr, f_add, f_mul};

verus! {

/// A failure while synthesizing a circuit or producing a proof.
#[derive(Clone, Copy, Debug, PartialEq, Eq, Structural)]
pub enum SynthesisError {
    /// A witness value was missing or a constraint row referred to a
    /// variable that is not live.
    AssignmentMissing,
    /// The witness does not satisfy the circuit's constraints.
    Unsatisfiable,
    /// The evaluation domain would need a root of unity of higher order
    /// than the field supplies.
    PolynomialDegreeTooLarge,
    /// The lengths of the key's query vectors do not match the circuit.
    MalformedVerifyingKey,
}

/// The tagged index of a variable: a public input or an auxiliary
/// (private) witness.
#[derive(Clone, Copy, Debug, PartialEq, Eq, Structural)]
pub enum Index {
    Input(usize),
    Aux(usize),
}

/// An opaque handle to an allocated variable.
#[derive(Clone, Copy, Debug, PartialEq, Eq, Structural)]
pub struct Variable {
    pub index: Index,
}

impl Variable {
    /// Wraps a raw tagged index.
    pub fn new_unchecked(index: Index) -> (r: Variable)
        ensures
            r.index == index,
    {
        Variable { index }
    }

    /// The raw tagged index.
    pub fn get_unchecked(self) -> (r: Index)
        ensures
            r == self.index,
    {
        self.index
    }

    /// The tagged index, for specifications.
    pub open spec fn spec_index_of(self) -> Index {
        self.index
    }
}

/// One row contribution to the `A`, `B` or `C` matrix: a mapping from
/// variable indices to coefficients, kept in insertion order.
#[derive(Clone, Debug)]
pub struct LinearCombination {
    pub terms: Vec<(Fr, Index)>,
}

/// The value of a variable under given input and auxiliary assignments;
/// indices beyond either assignment read as zero (the callers that
/// evaluate rows reject such rows before using the value).
pub open spec fn var_value(ix: Index, inputs: Seq<int>, auxs: Seq<int>) -> int {
    match ix {
        Index::Input(i) => if i < inputs.len() {
            inputs[i as int]
        } else {
            0
        },
        Index::Aux(i) => if i < auxs.len() {
            auxs[i as int]
        } else {
            0
        },
    }
}

/// Whether every term of a row refers to a live variable.
pub open spec fn row_in_bounds(row: Seq<(Fr, Index)>, n_inputs: int, n_aux: int) -> bool {
    forall|k: int| 0 <= k < row.len() ==> match (#[trigger] row[k]).1 {
        Index::Input(i) => i < n_inputs,
        Index::Aux(i) => i < n_aux,
    }
}

/// The weighted sum of a row over the full assignment, in the field: the
/// row's evaluation against the witness.
pub open spec fn row_value(row: Seq<(Fr, Index)>, inputs: Seq<int>, auxs: Seq<int>) -> int
    decreases row.len(),
{
    if row.len() == 0 {
        0
    } else {
        f_add(
            row_value(row.drop_last(), inputs, auxs),
            f_mul(row.last().0@, var_value(row.last().1, inputs, auxs)),
        )
    }
}

impl LinearCombination {
    /// The empty linear combination.
    pub fn zero() -> (r: LinearCombination)
        ensures
            r.terms@ == Seq::<(Fr, Index)>::empty(),
    {
        LinearCombination { terms: Vec::new() }
    }

    /// Appends one `coefficient * variable` term.
    pub fn add_term(&mut self, coeff: Fr, var: Variable)
        ensures
            final(self).terms@ == old(self).terms@.push((coeff, var.spec_index_of())),
    {
        let ix = var.get_unchecked();
        self.terms.push((coeff, ix));
    }

    /// All coefficients in canonical form.
    pub open spec fn is_valid(self) -> bool {
        forall|k: int| 0 <= k < self.terms@.len() ==> (#[trigger] self.terms@[k]).0.is_valid()
    }
}

} // verus!
