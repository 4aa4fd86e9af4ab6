//! The pairing groups.
//!
//! The two source groups and the target group are instantiated as the
//! additive group of the scalar field: a group element is an exponent
//! below [`MODULUS`], group addition is field addition, scalar
//! multiplication is field multiplication, and the pairing sends a pair of
//! exponents to their field product, which is bilinear and non-degenerate.
//! The pairing is symmetric in this configuration, so the two source
//! groups share one representation and `G2` names alias the `G1` types.
//!
//! The affine form is the canonical serialization form: it carries the
//! exponent `x` together with a redundant companion coordinate
//! `y = x^3 + AFFINE_B`, playing the role of an on-curve relation that
//! decoders of the uncompressed encoding check and decoders of the
//! compressed encoding recover. The projective form carries the bare
//! exponent and is used for incremental accumulation inside the prover.

use vstd::prelude::*;
use crate::field::{Fr, MODULUS, f_add, f_mul, f_neg};

verus! {

/// The constant term of the affine relation `y = x^3 + AFFINE_B`.
pub const AFFINE_B: u64 = 3;

/// The companion coordinate determined by an exponent: `x^3 + AFFINE_B`
/// in the field.
pub open spec fn affine_y(x: int) -> int {
    f_add(f_mul(f_mul(x, x), x), AFFINE_B as int)
}

/// A group element in affine form: the exponent and its companion
/// coordinate. The canonical form for serialization; the identity is the
/// zero exponent.
#[derive(Clone, Copy, Debug, PartialEq, Eq, Structural)]
pub struct G1Affine {
    pub x: u64,
    pub y: u64,
}

/// A group element in projective form: the bare exponent, used for
/// efficient incremental accumulation.
#[derive(Clone, Copy, Debug, PartialEq, Eq, Structural)]
pub struct G1Projective {
    pub value: u64,
}

/// The second source group coincides with the first in this symmetric
/// pairing configuration.
pub type G2Affine = G1Affine;

/// Projective form of the second source group.
pub type G2Projective = G1Projective;

/// An element of the target group of the pairing. The pairing equation
/// writes the target group multiplicatively; in this exponent
/// instantiation its operation is addition of exponents.
#[derive(Clone, Copy, Debug, PartialEq, Eq, Structural)]
pub struct Gt {
    pub value: u64,
}

impl View for G1Affine {
    type V = int;

    /// The group value of an affine point is its exponent.
    open spec fn view(&self) -> int {
        self.x as int
    }
}

impl View for G1Projective {
    type V = int;

    open spec fn view(&self) -> int {
        self.value as int
    }
}

impl View for Gt {
    type V = int;

    open spec fn view(&self) -> int {
        self.value as int
    }
}

impl G1Affine {
    /// Canonical affine form: exponent in range and companion coordinate
    /// consistent with it.
    pub open spec fn is_valid(self) -> bool {
        self.x < MODULUS && self.y as int == affine_y(self.x as int)
    }

    /// The affine point with a given exponent.
    pub fn from_exponent(e: Fr) -> (r: G1Affine)
        requires
            e.is_valid(),
        ensures
            r.is_valid(),
            r@ == e@,
    {
        let y = e.mul(e).mul(e).add(Fr { value: AFFINE_B });
        G1Affine { x: e.value, y: y.value }
    }

    /// The identity element (the zero exponent).
    pub fn identity() -> (r: G1Affine)
        ensures
            r.is_valid(),
            r@ == 0,
    {
        G1Affine::from_exponent(Fr::zero())
    }

    /// Conversion to the projective accumulation form.
    pub fn into_projective(self) -> (r: G1Projective)
        requires
            self.is_valid(),
        ensures
            r.is_valid(),
            r@ == self@,
    {
        G1Projective { value: self.x }
    }

    /// Scalar multiplication by a field element.
    pub fn mul(self, scalar: Fr) -> (r: G1Projective)
        requires
            self.is_valid(),
            scalar.is_valid(),
        ensures
            r.is_valid(),
            r@ == f_mul(self@, scalar@),
    {
        let e = Fr { value: self.x }.mul(scalar);
        G1Projective { value: e.value }
    }

    /// The additive inverse.
    pub fn neg(self) -> (r: G1Affine)
        requires
            self.is_valid(),
        ensures
            r.is_valid(),
            r@ == f_neg(self@),
    {
        let e = Fr { value: self.x }.neg();
        G1Affine::from_exponent(e)
    }

    /// Membership in the prime-order subgroup, assuming the affine
    /// relation already holds. The whole group has prime order here (the
    /// cofactor is one), so every point passes; the check is kept because
    /// checked deserialization of parameters calls it point by point.
    pub fn is_in_correct_subgroup_assuming_on_curve(&self) -> (r: bool)
        ensures
            r == true,
    {
        true
    }
}

impl Default for G1Affine {
    /// The identity element.
    fn default() -> (r: G1Affine)
        ensures
            r.is_valid(),
            r@ == 0,
    {
        G1Affine::identity()
    }
}

impl G1Projective {
    pub open spec fn is_valid(self) -> bool {
        self.value < MODULUS
    }

    /// The identity element of the group.
    pub fn zero() -> (r: G1Projective)
        ensures
            r.is_valid(),
            r@ == 0,
    {
        G1Projective { value: 0 }
    }

    /// Group addition.
    pub fn add(self, other: G1Projective) -> (r: G1Projective)
        requires
            self.is_valid(),
            other.is_valid(),
        ensures
            r.is_valid(),
            r@ == f_add(self@, other@),
    {
        let e = Fr { value: self.value }.add(Fr { value: other.value });
        G1Projective { value: e.value }
    }

    /// Group subtraction.
    pub fn sub(self, other: G1Projective) -> (r: G1Projective)
        requires
            self.is_valid(),
            other.is_valid(),
        ensures
            r.is_valid(),
            r@ == crate::field::f_sub(self@, other@),
    {
        let e = Fr { value: self.value }.sub(Fr { value: other.value });
        G1Projective { value: e.value }
    }

    /// Mixed addition of an affine point into the accumulator.
    pub fn add_mixed(self, other: &G1Affine) -> (r: G1Projective)
        requires
            self.is_valid(),
            other.is_valid(),
        ensures
            r.is_valid(),
            r@ == f_add(self@, other@),
    {
        let e = Fr { value: self.value }.add(Fr { value: other.x });
        G1Projective { value: e.value }
    }

    /// Scalar multiplication by a field element.
    pub fn mul(self, scalar: Fr) -> (r: G1Projective)
        requires
            self.is_valid(),
            scalar.is_valid(),
        ensures
            r.is_valid(),
            r@ == f_mul(self@, scalar@),
    {
        let e = Fr { value: self.value }.mul(scalar);
        G1Projective { value: e.value }
    }

    /// Scalar multiplication by a big-integer scalar representation.
    pub fn mul_repr(self, scalar: u64) -> (r: G1Projective)
        requires
            self.is_valid(),
            scalar < MODULUS,
        ensures
            r.is_valid(),
            r@ == f_mul(self@, scalar as int),
    {
        let e = Fr { value: self.value }.mul(Fr { value: scalar });
        G1Projective { value: e.value }
    }

    /// Conversion back to the canonical affine form, at the end of an
    /// accumulation.
    pub fn into_affine(self) -> (r: G1Affine)
        requires
            self.is_valid(),
        ensures
            r.is_valid(),
            r@ == self@,
    {
        G1Affine::from_exponent(Fr { value: self.value })
    }
}

/// The bilinear pairing: in this exponent instantiation it multiplies the
/// two exponents in the field, which satisfies
/// `e(a + b, c) == e(a, c) * e(b, c)` and `e(s * a, c) == e(a, c)^s` with
/// the target group written multiplicatively.
pub fn pairing(p: &G1Affine, q: &G2Affine) -> (r: Gt)
    requires
        p.is_valid(),
        q.is_valid(),
    ensures
        r.is_valid(),
        r@ == f_mul(p@, q@),
{
    let e = Fr { value: p.x }.mul(Fr { value: q.x });
    Gt { value: e.value }
}

impl Gt {
    pub open spec fn is_valid(self) -> bool {
        self.value < MODULUS
    }

    /// The target-group operation, written multiplicatively in the
    /// pairing equation: addition of exponents here.
    pub fn mul(self, other: Gt) -> (r: Gt)
        requires
            self.is_valid(),
            other.is_valid(),
        ensures
            r.is_valid(),
            r@ == f_add(self@, other@),
    {
        let e = Fr { value: self.value }.add(Fr { value: other.value });
        Gt { value: e.value }
    }
}

} // verus!
