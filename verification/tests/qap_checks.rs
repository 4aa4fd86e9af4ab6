use groth16::assignment::ProvingAssignment;
use groth16::domain::{EvaluationDomain, dft, idft, poly_eval_at};
use groth16::field::{Fr, GENERATOR, MODULUS};
use groth16::qap::witness_map;
use groth16::r1cs::{LinearCombination, SynthesisError};

/// Builds the finished assignment of the multiplication circuit with
/// witnesses `a`, `b` and public product `c`: variables
/// `[one, c | a, b]` and the single constraint `a * b = c`.
fn mul_assignment(a: u64, b: u64, c: u64) -> ProvingAssignment {
    let mut pa = ProvingAssignment::new();
    let _ = pa.alloc_input(Fr::one());
    let va = pa.alloc_aux(Fr::from_u64(a));
    let vb = pa.alloc_aux(Fr::from_u64(b));
    let vc = pa.alloc_input(Fr::from_u64(c));
    let one = Fr::one();
    let mut lc_a = LinearCombination::zero();
    lc_a.add_term(one, va);
    let mut lc_b = LinearCombination::zero();
    lc_b.add_term(one, vb);
    let mut lc_c = LinearCombination::zero();
    lc_c.add_term(one, vc);
    pa.enforce(lc_a, lc_b, lc_c);
    pa
}

#[test]
fn quotient_satisfies_divisibility_at_many_points() {
    let pa = mul_assignment(2, 3, 6);
    let h = witness_map(&pa).unwrap();

    // Rebuild the three interpolated polynomials from the known matrix
    // evaluations: one constraint row, then the two input consistency
    // entries on the A side, zeros up to the domain size.
    let domain = EvaluationDomain::new(1 + 2).unwrap();
    let m = domain.size as usize;
    assert_eq!(m, 4);
    let w = domain.group_gen;
    let a_evals = vec![Fr::from_u64(2), Fr::one(), Fr::from_u64(6), Fr::from_u64(0)];
    let b_evals = vec![Fr::from_u64(3), Fr::from_u64(0), Fr::from_u64(0), Fr::from_u64(0)];
    let c_evals = vec![Fr::from_u64(6), Fr::from_u64(0), Fr::from_u64(0), Fr::from_u64(0)];
    let a_poly = idft(&a_evals, w);
    let b_poly = idft(&b_evals, w);
    let c_poly = idft(&c_evals, w);

    // Interpolation sanity: the forward transform gives the evaluations
    // back.
    let again = dft(&a_poly, w, m);
    for i in 0..m {
        assert_eq!(again[i], a_evals[i]);
    }

    // A(x) * B(x) - C(x) == H(x) * Z(x) at domain points, coset points
    // and arbitrary other points.
    let mut points: Vec<Fr> = Vec::new();
    let mut wp = Fr::one();
    for _ in 0..m {
        points.push(wp);
        points.push(Fr::from_u64(GENERATOR).mul(wp));
        wp = wp.mul(w);
    }
    for extra in [7u64, 123, 999_999_937, MODULUS - 1] {
        points.push(Fr::from_u64(extra));
    }
    for x in points {
        let ax = poly_eval_at(&a_poly, x);
        let bx = poly_eval_at(&b_poly, x);
        let cx = poly_eval_at(&c_poly, x);
        let hx = poly_eval_at(&h, x);
        let zx = domain.evaluate_vanishing_polynomial(x);
        assert_eq!(ax.mul(bx).sub(cx), hx.mul(zx), "x = {}", x.value);
    }
}

#[test]
fn witness_map_rejects_dangling_references() {
    let mut pa = ProvingAssignment::new();
    let _ = pa.alloc_input(Fr::one());
    // A row that refers to an auxiliary variable that was never
    // allocated.
    let ghost_var = {
        let mut scratch = ProvingAssignment::new();
        scratch.alloc_aux(Fr::from_u64(1))
    };
    let mut lc_a = LinearCombination::zero();
    lc_a.add_term(Fr::one(), ghost_var);
    pa.enforce(lc_a, LinearCombination::zero(), LinearCombination::zero());
    assert_eq!(witness_map(&pa).unwrap_err(), SynthesisError::AssignmentMissing);
}

#[test]
fn witness_map_rejects_open_holes() {
    let mut pa = mul_assignment(2, 3, 6);
    // A popped scope leaves holes behind; the reduction refuses them.
    pa.push_namespace();
    let _ = pa.alloc_aux(Fr::from_u64(9));
    pa.pop_namespace();
    assert_eq!(witness_map(&pa).unwrap_err(), SynthesisError::AssignmentMissing);
}

#[test]
fn domain_grows_to_next_power_of_two() {
    assert_eq!(EvaluationDomain::new(0).unwrap().size, 1);
    assert_eq!(EvaluationDomain::new(1).unwrap().size, 1);
    assert_eq!(EvaluationDomain::new(3).unwrap().size, 4);
    assert_eq!(EvaluationDomain::new(4).unwrap().size, 4);
    assert_eq!(EvaluationDomain::new(5).unwrap().size, 8);
    assert_eq!(EvaluationDomain::new(0x800_0000).unwrap().size, 0x800_0000);
    assert_eq!(
        EvaluationDomain::new(0x800_0001).unwrap_err(),
        SynthesisError::PolynomialDegreeTooLarge
    );
}

#[test]
fn domain_generator_has_exact_order() {
    let domain = EvaluationDomain::new(8).unwrap();
    let w = domain.group_gen;
    assert_eq!(w.pow(8).value, 1);
    assert_ne!(w.pow(4).value, 1);
}
