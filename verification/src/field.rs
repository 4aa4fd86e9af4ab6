//! The scalar field `Fr`.
//!
//! `Fr` is the prime field of order [`MODULUS`], a 31-bit prime chosen for
//! its high two-adicity: `MODULUS - 1 = 2^27 * 15`, so the field contains a
//! root of unity of order `2^k` for every `k <= 27`, which the evaluation
//! domains of the QAP reduction need. Elements are kept in canonical reduced
//! form (a `u64` strictly below the modulus); every operation returns the
//! canonical representative, so no aliased non-reduced form ever persists.

use vstd::prelude::*;
use vstd::arithmetic::power::{pow, lemma_pow_adds, lemma_pow_distributes};
use vstd::arithmetic::div_mod::{lemma_mul_mod_noop_general, lemma_small_mod};

verus! {

/// The prime order of the scalar field: `15 * 2^27 + 1`.
pub const MODULUS: u64 = 2013265921;

/// The largest `k` with `2^k` dividing `MODULUS - 1`; evaluation domains of
/// size up to `2^27` have a root of unity of matching order.
pub const TWO_ADICITY: u64 = 27;

/// A fixed multiplicative generator of the field: its powers reach every
/// nonzero element.
pub const GENERATOR: u64 = 31;

/// The field addition `(a + b) mod MODULUS`, on mathematical integers.
pub open spec fn f_add(a: int, b: int) -> int {
    (a + b) % (MODULUS as int)
}

/// The field subtraction `(a - b) mod MODULUS`, on mathematical integers.
pub open spec fn f_sub(a: int, b: int) -> int {
    (a - b) % (MODULUS as int)
}

/// The field multiplication `(a * b) mod MODULUS`, on mathematical integers.
pub open spec fn f_mul(a: int, b: int) -> int {
    (a * b) % (MODULUS as int)
}

/// The additive inverse `(-a) mod MODULUS`, on mathematical integers.
pub open spec fn f_neg(a: int) -> int {
    (MODULUS as int - a) % (MODULUS as int)
}

/// The field exponentiation `b^e mod MODULUS`, on mathematical integers.
pub open spec fn f_pow(b: int, e: nat) -> int {
    pow(b, e) % (MODULUS as int)
}

/// The multiplicative inverse by Fermat's little theorem: `a^(MODULUS - 2)`.
/// Total as a function; it sends 0 to 0.
pub open spec fn f_inv(a: int) -> int {
    f_pow(a, (MODULUS - 2) as nat)
}

/// An element of the scalar field, in canonical reduced form.
#[derive(Clone, Copy, Debug, PartialEq, Eq, Structural)]
pub struct Fr {
    pub value: u64,
}

impl View for Fr {
    type V = int;

    open spec fn view(&self) -> int {
        self.value as int
    }
}

impl Fr {
    /// Canonical form: the representative is strictly below the modulus.
    pub open spec fn is_valid(self) -> bool {
        self.value < MODULUS
    }

    /// The additive identity.
    pub fn zero() -> (r: Fr)
        ensures
            r.is_valid(),
            r@ == 0,
    {
        Fr { value: 0 }
    }

    /// The multiplicative identity.
    pub fn one() -> (r: Fr)
        ensures
            r.is_valid(),
            r@ == 1,
    {
        Fr { value: 1 }
    }

    /// The canonical element congruent to `v`.
    pub fn from_u64(v: u64) -> (r: Fr)
        ensures
            r.is_valid(),
            r@ == v as int % (MODULUS as int),
    {
        Fr { value: v % MODULUS }
    }

    /// Whether this is the additive identity.
    pub fn is_zero(self) -> (r: bool)
        ensures
            r == (self@ == 0),
    {
        self.value == 0
    }

    /// The canonical big-integer scalar representation, used by
    /// multi-scalar multiplication.
    pub fn into_repr(self) -> (r: u64)
        ensures
            r as int == self@,
    {
        self.value
    }

    /// Field addition.
    pub fn add(self, other: Fr) -> (r: Fr)
        requires
            self.is_valid(),
            other.is_valid(),
        ensures
            r.is_valid(),
            r@ == f_add(self@, other@),
    {
        Fr { value: (self.value + other.value) % MODULUS }
    }

    /// Field subtraction.
    pub fn sub(self, other: Fr) -> (r: Fr)
        requires
            self.is_valid(),
            other.is_valid(),
        ensures
            r.is_valid(),
            r@ == f_sub(self@, other@),
    {
        let r = Fr { value: (self.value + MODULUS - other.value) % MODULUS };
        proof {
            let m = MODULUS as int;
            assert((self@ + m - other@) % m == (self@ - other@) % m) by {
                vstd::arithmetic::div_mod::lemma_mod_add_multiples_vanish(
                    self@ - other@,
                    m,
                );
            }
        }
        r
    }

    /// Field multiplication.
    pub fn mul(self, other: Fr) -> (r: Fr)
        requires
            self.is_valid(),
            other.is_valid(),
        ensures
            r.is_valid(),
            r@ == f_mul(self@, other@),
    {
        proof {
            assert(self.value * other.value <= (MODULUS - 1) * (MODULUS - 1))
                by (nonlinear_arith)
                requires
                    self.value < MODULUS,
                    other.value < MODULUS,
            ;
        }
        Fr { value: (self.value * other.value) % MODULUS }
    }

    /// The additive inverse.
    pub fn neg(self) -> (r: Fr)
        requires
            self.is_valid(),
        ensures
            r.is_valid(),
            r@ == f_neg(self@),
    {
        let r = Fr { value: (MODULUS - self.value) % MODULUS };
        r
    }

    /// Field exponentiation by square and multiply.
    pub fn pow(self, e: u64) -> (r: Fr)
        requires
            self.is_valid(),
        ensures
            r.is_valid(),
            r@ == f_pow(self@, e as nat),
    {
        let mut result = Fr { value: 1 };
        let mut base = self;
        let mut exp: u64 = e;
        while exp > 0
            invariant
                result.is_valid(),
                base.is_valid(),
                f_mul(result@, f_pow(base@, exp as nat)) == f_mul(1, f_pow(self@, e as nat)),
            decreases exp,
        {
            proof {
                lemma_square_and_multiply_step(result@, base@, exp as nat);
            }
            if exp % 2 == 1 {
                result = result.mul(base);
            }
            base = base.mul(base);
            exp = exp / 2;
        }
        proof {
            lemma_pow_unit_cases(result@, base@, self@, e as nat);
        }
        result
    }

    /// The multiplicative inverse by Fermat's little theorem; 0 is sent to 0.
    pub fn inverse(self) -> (r: Fr)
        requires
            self.is_valid(),
        ensures
            r.is_valid(),
            r@ == f_inv(self@),
    {
        self.pow(MODULUS - 2)
    }
}

/// Every element of the sequence is canonical.
pub open spec fn frs_valid(s: Seq<Fr>) -> bool {
    forall|i: int| 0 <= i < s.len() ==> (#[trigger] s[i]).is_valid()
}

/// The sequence of elements as mathematical integers.
pub open spec fn frs_view(s: Seq<Fr>) -> Seq<int> {
    Seq::new(s.len(), |i: int| s[i]@)
}

/// Stepping a power by one factor of the base.
pub proof fn lemma_f_pow_succ(b: int, e: nat)
    ensures
        f_pow(b, e + 1) == f_mul(f_pow(b, e), b),
{
    lemma_pow_adds(b, e, 1nat);
    vstd::arithmetic::power::lemma_pow1(b);
    vstd::arithmetic::div_mod::lemma_mul_mod_noop_left(pow(b, e), b, MODULUS as int);
}

/// Field multiplication is commutative.
pub proof fn lemma_f_mul_comm(a: int, b: int)
    ensures
        f_mul(a, b) == f_mul(b, a),
{
    assert(a * b == b * a) by (nonlinear_arith);
}

/// One step of square-and-multiply preserves the accumulated product:
/// absorbing the base on an odd exponent and squaring the base while
/// halving the exponent leave `r * b^e` unchanged modulo the modulus.
proof fn lemma_square_and_multiply_step(r: int, b: int, e: nat)
    requires
        e > 0,
    ensures
        e % 2 == 1 ==> f_mul(f_mul(r, b), f_pow(f_mul(b, b), e / 2)) == f_mul(r, f_pow(b, e)),
        e % 2 == 0 ==> f_mul(r, f_pow(f_mul(b, b), e / 2)) == f_mul(r, f_pow(b, e)),
{
    let m = MODULUS as int;
    let h = e / 2;
    lemma_pow_distributes(b, b, h);
    lemma_pow_adds(b, h, h);
    // pow(b * b, h) == pow(b, 2 * h)
    vstd::arithmetic::power::lemma_pow_mod_noop(b * b, h, m);
    // f_pow(f_mul(b, b), h) == f_pow(b * b, h) == pow(b, 2 * h) % m
    if e % 2 == 1 {
        assert(e == 2 * h + 1);
        vstd::arithmetic::power::lemma_pow1(b);
        lemma_pow_adds(b, (2 * h) as nat, 1nat);
        // pow(b, e) == pow(b, 2 * h) * b
        let p = pow(b, (2 * h) as nat);
        assert(f_mul(f_mul(r, b), p % m) == ((r * b) * p) % m) by {
            lemma_mul_mod_noop_general(r * b, p, m);
        }
        assert((r * b) * p == r * (p * b)) by (nonlinear_arith);
        assert(f_mul(r, f_pow(b, e)) == (r * (p * b)) % m) by {
            lemma_mul_mod_noop_general(r, p * b, m);
        }
    } else {
        assert(e == 2 * h);
    }
}

/// Ties off the loop of square-and-multiply: multiplying a canonical value
/// by the zeroth power is the identity, and the unit accumulator at entry
/// is absorbed.
proof fn lemma_pow_unit_cases(r: int, b: int, s: int, e: nat)
    requires
        0 <= r < MODULUS as int,
        f_mul(r, f_pow(b, 0)) == f_mul(1, f_pow(s, e)),
    ensures
        r == f_pow(s, e),
{
    let m = MODULUS as int;
    vstd::arithmetic::power::lemma_pow0(b);
    lemma_small_mod(1nat, MODULUS as nat);
    // f_pow(b, 0) == 1 % m == 1
    assert(r * 1 == r) by (nonlinear_arith);
    assert(f_mul(r, 1) == r % m);
    lemma_small_mod(r as nat, MODULUS as nat);
    vstd::arithmetic::div_mod::lemma_mod_division_less_than_divisor(pow(s, e), m);
    let q = f_pow(s, e);
    assert(1 * q == q) by (nonlinear_arith);
    assert(f_mul(1, q) == q % m);
    lemma_small_mod(q as nat, MODULUS as nat);
}

} // verus!
