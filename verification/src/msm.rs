//! Multi-scalar multiplication.
//!
//! Computes the accumulated sum of `scalars[i] * points[i]` over the
//! group. Correctness depends only on associative accumulation, not on
//! any particular windowing scheme, so the accumulation is a single
//! left-to-right fold.

use vstd::prelude::*;
use crate::field::{MODULUS, f_add, f_mul};
use crate::group::{G1Affine, G1Projective};
use crate::keys::{points_view, points_valid};

verus! {

/// The accumulated value of a multi-scalar multiplication: the sum over
/// the group (exponents in the field) of `scalars[i] * points[i]`, over
/// the indices of `points`.
pub open spec fn msm_value(points: Seq<int>, scalars: Seq<int>) -> int
    decreases points.len(),
{
    if points.len() == 0 {
        0
    } else {
        f_add(
            msm_value(points.drop_last(), scalars),
            f_mul(scalars[points.len() - 1], points.last()),
        )
    }
}

/// Every scalar is a canonical representative.
pub open spec fn scalars_valid(s: Seq<u64>) -> bool {
    forall|i: int| 0 <= i < s.len() ==> (#[trigger] s[i]) < MODULUS
}

/// The scalars as mathematical integers.
pub open spec fn scalars_view(s: Seq<u64>) -> Seq<int> {
    Seq::new(s.len(), |i: int| s[i] as int)
}

/// Multi-scalar multiplication over the base points, with one scalar per
/// point; extra scalars beyond the points are ignored.
pub fn multi_scalar_mul(bases: &Vec<G1Affine>, scalars: &Vec<u64>) -> (r: G1Projective)
    requires
        points_valid(bases@),
        scalars_valid(scalars@),
        bases@.len() <= scalars@.len(),
    ensures
        r.is_valid(),
        r@ == msm_value(points_view(bases@), scalars_view(scalars@)),
{
    let mut acc = G1Projective::zero();
    let n = bases.len();
    let mut i: usize = 0;
    while i < n
        invariant
            i <= n,
            n == bases@.len(),
            n <= scalars@.len(),
            points_valid(bases@),
            scalars_valid(scalars@),
            acc.is_valid(),
            acc@ == msm_value(points_view(bases@).take(i as int), scalars_view(scalars@)),
        decreases n - i,
    {
        let term = bases[i].mul(crate::field::Fr { value: scalars[i] });
        acc = acc.add(term);
        proof {
            let pv = points_view(bases@);
            assert(pv.take(i + 1).drop_last() =~= pv.take(i as int));
            assert(pv.take(i + 1).last() == pv[i as int]);
            crate::field::lemma_f_mul_comm(pv[i as int], scalars@[i as int] as int);
        }
        i = i + 1;
    }
    proof {
        assert(points_view(bases@).take(n as int) =~= points_view(bases@));
    }
    acc
}

} // verus!
