//! Multiplicative evaluation domains and the number-theoretic transform.
//!
//! A domain of size `m` (a power of two up to `2^TWO_ADICITY`) is the set
//! of `m`-th roots of unity, generated by `GENERATOR^((MODULUS - 1) / m)`.
//! The forward transform evaluates a coefficient vector at every domain
//! point; the inverse transform is the forward transform at the inverse
//! root, scaled by the inverse of the domain size. The transforms here
//! are direct evaluations, one Horner pass per point: correctness of the
//! reduction depends only on the transform's value, not on the speed of
//! the algorithm computing it.

use vstd::prelude::*;
use crate::field::{
    Fr, GENERATOR, MODULUS, TWO_ADICITY, f_add, f_inv, f_mul, f_pow, frs_valid, frs_view,
    lemma_f_pow_succ,
};
use crate::r1cs::SynthesisError;

verus! {

/// The value of a polynomial, given by its coefficients from the
/// constant term up, at the point `x`.
pub open spec fn poly_eval(c: Seq<int>, x: int) -> int
    decreases c.len(),
{
    if c.len() == 0 {
        0
    } else {
        f_add(c[0], f_mul(x, poly_eval(c.drop_first(), x)))
    }
}

/// The forward transform: the evaluations of `c` at the powers
/// `w^0, w^1, ..., w^(m-1)`.
pub open spec fn dft_spec(c: Seq<int>, w: int, m: nat) -> Seq<int> {
    Seq::new(m, |i: int| poly_eval(c, f_pow(w, i as nat)))
}

/// Every element multiplied by the fixed factor `s`.
pub open spec fn scale_spec(c: Seq<int>, s: int) -> Seq<int> {
    Seq::new(c.len(), |i: int| f_mul(s, c[i]))
}

/// Element `i` multiplied by `g^i`: moving a coefficient vector onto the
/// coset shifted by `g`, or back off it with `g` inverted.
pub open spec fn coset_scale_spec(c: Seq<int>, g: int) -> Seq<int> {
    Seq::new(c.len(), |i: int| f_mul(f_pow(g, i as nat), c[i]))
}

/// The inverse transform: the forward transform at the inverse root,
/// scaled by the inverse of the length.
pub open spec fn idft_spec(e: Seq<int>, w: int) -> Seq<int> {
    scale_spec(
        dft_spec(e, f_inv(w), e.len()),
        f_inv((e.len() as u64 % MODULUS) as int),
    )
}

/// The root of unity generating the domain of size `m`.
pub open spec fn domain_gen(m: int) -> int {
    f_pow(GENERATOR as int, (((MODULUS - 1) as int / m) as nat))
}

/// The smallest power of two at least `n` (and at least one).
pub open spec fn next_pow2(n: nat) -> nat
    decreases n,
{
    if n <= 1 {
        1
    } else {
        2 * next_pow2((n + 1) / 2)
    }
}

/// A minimal power of two at least `n` is the smallest one: any power of
/// two `m` with `m >= n` whose half is below `n` equals `next_pow2(n)`.
proof fn lemma_next_pow2_unique(n: nat, m: nat, k: nat)
    requires
        n >= 1,
        m == vstd::arithmetic::power2::pow2(k),
        m >= n,
        m == 1 || m / 2 < n,
    ensures
        m == next_pow2(n),
    decreases k,
{
    vstd::arithmetic::power2::lemma_pow2_pos(k);
    if k == 0 {
        assert(m == 1) by {
            vstd::arithmetic::power2::lemma2_to64();
        }
    } else {
        vstd::arithmetic::power2::lemma_pow2_adds((k - 1) as nat, 1nat);
        vstd::arithmetic::power2::lemma2_to64();
        let half = vstd::arithmetic::power2::pow2((k - 1) as nat);
        assert(m == 2 * half);
        vstd::arithmetic::power2::lemma_pow2_pos((k - 1) as nat);
        if n == 1 {
            // m / 2 == half >= 1 >= n contradicts minimality unless m == 1
            assert(false);
        } else {
            let n2 = (n + 1) / 2;
            assert(1 <= n2);
            assert(half >= n2);
            assert(half == 1 || half / 2 < n2);
            lemma_next_pow2_unique(n2, half, (k - 1) as nat);
        }
    }
}

/// A multiplicative evaluation domain: a power-of-two size and the
/// root of unity of that order generating it.
#[derive(Clone, Copy, Debug)]
pub struct EvaluationDomain {
    pub size: u64,
    pub group_gen: Fr,
}

impl EvaluationDomain {
    pub open spec fn is_valid(self) -> bool {
        &&& 1 <= self.size
        &&& self.size <= 0x800_0000
        &&& self.group_gen.is_valid()
        &&& self.group_gen@ == domain_gen(self.size as int)
    }

    /// The smallest power-of-two domain holding at least `num` points.
    /// Fails exactly when that power of two would exceed the field's
    /// two-adicity, so no root of unity of the needed order exists; a
    /// permanent property of the circuit's size, not of one proof.
    pub fn new(num: usize) -> (r: Result<EvaluationDomain, SynthesisError>)
        ensures
            num > 0x800_0000 ==> r == Err::<EvaluationDomain, SynthesisError>(
                SynthesisError::PolynomialDegreeTooLarge,
            ),
            num <= 0x800_0000 ==> r is Ok && r->Ok_0.is_valid() && r->Ok_0.size >= num
                && r->Ok_0.size == next_pow2(if num == 0 {
                1nat
            } else {
                num as nat
            }),
    {
        if num > 0x800_0000 {
            return Err(SynthesisError::PolynomialDegreeTooLarge);
        }
        let mut m: u64 = 1;
        let mut k: u64 = 0;
        proof {
            vstd::arithmetic::power2::lemma2_to64();
        }
        while m < num as u64
            invariant
                1 <= m <= 0x800_0000,
                k <= TWO_ADICITY,
                m == vstd::arithmetic::power2::pow2(k as nat),
                num <= 0x800_0000,
                m == 1 || m / 2 < num as u64,
            decreases 0x800_0000 - m,
        {
            proof {
                vstd::arithmetic::power2::lemma2_to64();
                if k >= TWO_ADICITY {
                    assert(m == 0x800_0000);
                    assert(false);
                }
                vstd::arithmetic::power2::lemma_pow2_adds(k as nat, 1nat);
                if k + 1 < TWO_ADICITY {
                    vstd::arithmetic::power2::lemma_pow2_strictly_increases(
                        (k + 1) as nat,
                        TWO_ADICITY as nat,
                    );
                }
            }
            m = m * 2;
            k = k + 1;
        }
        proof {
            lemma_next_pow2_unique(
                if num == 0 {
                    1nat
                } else {
                    num as nat
                },
                m as nat,
                k as nat,
            );
        }
        let exponent = (MODULUS - 1) / m;
        let group_gen = Fr { value: GENERATOR }.pow(exponent);
        Ok(EvaluationDomain { size: m, group_gen })
    }

    /// The value of the domain's vanishing polynomial `x^size - 1` at a
    /// point: zero exactly on the domain.
    pub fn evaluate_vanishing_polynomial(&self, x: Fr) -> (r: Fr)
        requires
            self.is_valid(),
            x.is_valid(),
        ensures
            r.is_valid(),
            r@ == crate::field::f_sub(f_pow(x@, self.size as nat), 1),
    {
        let one = Fr::one();
        x.pow(self.size).sub(one)
    }
}

/// The value of a polynomial at `x`, by one Horner pass from the top
/// coefficient down.
pub fn poly_eval_at(c: &Vec<Fr>, x: Fr) -> (r: Fr)
    requires
        frs_valid(c@),
        x.is_valid(),
    ensures
        r.is_valid(),
        r@ == poly_eval(frs_view(c@), x@),
{
    let mut acc = Fr::zero();
    let mut i: usize = c.len();
    while i > 0
        invariant
            i <= c@.len(),
            frs_valid(c@),
            x.is_valid(),
            acc.is_valid(),
            acc@ == poly_eval(frs_view(c@).skip(i as int), x@),
        decreases i,
    {
        i = i - 1;
        acc = c[i].add(x.mul(acc));
        proof {
            let v = frs_view(c@);
            assert(v.skip(i as int)[0] == v[i as int]);
            assert(v.skip(i as int).drop_first() =~= v.skip(i + 1));
        }
    }
    proof {
        assert(frs_view(c@).skip(0) =~= frs_view(c@));
    }
    acc
}

/// The forward transform of `c` over the domain of size `m` generated by
/// `w`: the evaluation at every domain point in order.
pub fn dft(c: &Vec<Fr>, w: Fr, m: usize) -> (r: Vec<Fr>)
    requires
        frs_valid(c@),
        w.is_valid(),
    ensures
        frs_valid(r@),
        r@.len() == m,
        frs_view(r@) == dft_spec(frs_view(c@), w@, m as nat),
{
    let mut out: Vec<Fr> = Vec::new();
    let mut xp = Fr::one();
    let mut i: usize = 0;
    proof {
        vstd::arithmetic::power::lemma_pow0(w@);
        vstd::arithmetic::div_mod::lemma_small_mod(1nat, MODULUS as nat);
    }
    while i < m
        invariant
            i <= m,
            frs_valid(c@),
            w.is_valid(),
            xp.is_valid(),
            xp@ == f_pow(w@, i as nat),
            out@.len() == i,
            frs_valid(out@),
            forall|j: int| 0 <= j < i ==> frs_view(out@)[j] == poly_eval(
                frs_view(c@),
                f_pow(w@, j as nat),
            ),
        decreases m - i,
    {
        let y = poly_eval_at(c, xp);
        let ghost prev = out@;
        out.push(y);
        proof {
            lemma_f_pow_succ(w@, i as nat);
            assert forall|j: int| 0 <= j < i + 1 implies frs_view(out@)[j] == poly_eval(
                frs_view(c@),
                f_pow(w@, j as nat),
            ) by {
                if j < i {
                    assert(frs_view(out@)[j] == frs_view(prev)[j]);
                } else {
                    assert(frs_view(out@)[j] == y@);
                }
            }
        }
        xp = xp.mul(w);
        i = i + 1;
    }
    proof {
        assert(frs_view(out@) =~= dft_spec(frs_view(c@), w@, m as nat));
    }
    out
}

/// Every element multiplied by the fixed factor `s`.
pub fn scale_vec(c: &Vec<Fr>, s: Fr) -> (r: Vec<Fr>)
    requires
        frs_valid(c@),
        s.is_valid(),
    ensures
        frs_valid(r@),
        r@.len() == c@.len(),
        frs_view(r@) == scale_spec(frs_view(c@), s@),
{
    let mut out: Vec<Fr> = Vec::new();
    let n = c.len();
    let mut i: usize = 0;
    while i < n
        invariant
            i <= n,
            n == c@.len(),
            frs_valid(c@),
            s.is_valid(),
            out@.len() == i,
            frs_valid(out@),
            forall|j: int| 0 <= j < i ==> frs_view(out@)[j] == f_mul(s@, frs_view(c@)[j]),
        decreases n - i,
    {
        let y = s.mul(c[i]);
        let ghost prev = out@;
        out.push(y);
        proof {
            assert forall|j: int| 0 <= j < i + 1 implies frs_view(out@)[j] == f_mul(
                s@,
                frs_view(c@)[j],
            ) by {
                if j < i {
                    assert(frs_view(out@)[j] == frs_view(prev)[j]);
                } else {
                    assert(frs_view(out@)[j] == y@);
                }
            }
        }
        i = i + 1;
    }
    proof {
        assert(frs_view(out@) =~= scale_spec(frs_view(c@), s@));
    }
    out
}

/// Element `i` multiplied by `g^i`: moves a coefficient vector onto the
/// coset shifted by `g` before a forward transform, or back off it after
/// an inverse transform when handed the inverse shift.
pub fn coset_scale_vec(c: &Vec<Fr>, g: Fr) -> (r: Vec<Fr>)
    requires
        frs_valid(c@),
        g.is_valid(),
    ensures
        frs_valid(r@),
        r@.len() == c@.len(),
        frs_view(r@) == coset_scale_spec(frs_view(c@), g@),
{
    let mut out: Vec<Fr> = Vec::new();
    let mut gp = Fr::one();
    let n = c.len();
    let mut i: usize = 0;
    proof {
        vstd::arithmetic::power::lemma_pow0(g@);
        vstd::arithmetic::div_mod::lemma_small_mod(1nat, MODULUS as nat);
    }
    while i < n
        invariant
            i <= n,
            n == c@.len(),
            frs_valid(c@),
            g.is_valid(),
            gp.is_valid(),
            gp@ == f_pow(g@, i as nat),
            out@.len() == i,
            frs_valid(out@),
            forall|j: int| 0 <= j < i ==> frs_view(out@)[j] == f_mul(
                f_pow(g@, j as nat),
                frs_view(c@)[j],
            ),
        decreases n - i,
    {
        let y = gp.mul(c[i]);
        let ghost prev = out@;
        out.push(y);
        proof {
            lemma_f_pow_succ(g@, i as nat);
            assert forall|j: int| 0 <= j < i + 1 implies frs_view(out@)[j] == f_mul(
                f_pow(g@, j as nat),
                frs_view(c@)[j],
            ) by {
                if j < i {
                    assert(frs_view(out@)[j] == frs_view(prev)[j]);
                } else {
                    assert(frs_view(out@)[j] == y@);
                }
            }
        }
        gp = gp.mul(g);
        i = i + 1;
    }
    proof {
        assert(frs_view(out@) =~= coset_scale_spec(frs_view(c@), g@));
    }
    out
}

/// The inverse transform: interpolation back from evaluations over the
/// domain generated by `w` to coefficients.
pub fn idft(e: &Vec<Fr>, w: Fr) -> (r: Vec<Fr>)
    requires
        frs_valid(e@),
        w.is_valid(),
    ensures
        frs_valid(r@),
        r@.len() == e@.len(),
        frs_view(r@) == idft_spec(frs_view(e@), w@),
{
    let w_inv = w.inverse();
    let m_inv = Fr::from_u64(e.len() as u64).inverse();
    let evals = dft(e, w_inv, e.len());
    scale_vec(&evals, m_inv)
}

} // verus!
