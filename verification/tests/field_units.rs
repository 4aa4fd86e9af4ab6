use groth16::codec::SerializationError;
use groth16::field::{Fr, GENERATOR, MODULUS, TWO_ADICITY};
use groth16::group::{G1Affine, G1Projective, pairing};
use groth16::keys::Proof;

#[test]
fn field_constants_are_consistent() {
    // MODULUS - 1 == 2^TWO_ADICITY * odd
    let mut rest = MODULUS - 1;
    let mut twos = 0u64;
    while rest % 2 == 0 {
        rest /= 2;
        twos += 1;
    }
    assert_eq!(twos, TWO_ADICITY);
    assert_eq!(rest % 2, 1);
    // The generator has full multiplicative order: no proper-divisor
    // power collapses to one.
    let g = Fr::from_u64(GENERATOR);
    for p in [2u64, 3, 5] {
        assert_ne!(g.pow((MODULUS - 1) / p).value, 1);
    }
    assert_eq!(g.pow(MODULUS - 1).value, 1);
}

#[test]
fn field_arithmetic_exact_values() {
    let a = Fr::from_u64(MODULUS - 1);
    let b = Fr::from_u64(2);
    assert_eq!(a.add(b).value, 1);
    assert_eq!(b.sub(a).value, 3);
    assert_eq!(a.mul(a).value, 1);
    assert_eq!(a.neg().value, 1);
    assert_eq!(Fr::from_u64(MODULUS).value, 0);
    assert_eq!(Fr::from_u64(3).pow(4).value, 81);
}

#[test]
fn inverse_really_inverts() {
    for v in [1u64, 2, 3, 31, 12345, MODULUS - 1] {
        let x = Fr::from_u64(v);
        assert_eq!(x.mul(x.inverse()).value, 1);
    }
    assert_eq!(Fr::from_u64(0).inverse().value, 0);
}

#[test]
fn pairing_is_bilinear() {
    let p = G1Affine::from_exponent(Fr::from_u64(3));
    let q = G1Affine::from_exponent(Fr::from_u64(5));
    let r = G1Affine::from_exponent(Fr::from_u64(7));
    // e(p + q, r) == e(p, r) * e(q, r)
    let pq = p.into_projective().add_mixed(&q).into_affine();
    let lhs = pairing(&pq, &r);
    let rhs = pairing(&p, &r).mul(pairing(&q, &r));
    assert_eq!(lhs, rhs);
    // e(2 * p, r) == e(p, 2 * r)
    let p2 = p.mul(Fr::from_u64(2)).into_affine();
    let r2 = r.mul(Fr::from_u64(2)).into_affine();
    assert_eq!(pairing(&p2, &r), pairing(&p, &r2));
}

#[test]
fn group_accumulation_matches_field_arithmetic() {
    let p = G1Affine::from_exponent(Fr::from_u64(10));
    let acc = G1Projective::zero()
        .add(p.mul(Fr::from_u64(4)))
        .sub(p.mul(Fr::from_u64(1)))
        .add_mixed(&p);
    assert_eq!(acc.into_affine(), p.mul(Fr::from_u64(4)).into_affine());
    assert!(p.is_in_correct_subgroup_assuming_on_curve());
}

#[test]
fn default_proof_is_identity_points() {
    let p = Proof::default();
    assert_eq!(p.a.x, 0);
    assert_eq!(p.b.x, 0);
    assert_eq!(p.c.x, 0);
    assert!(p.compressed);
}

#[test]
fn compressed_point_with_noncanonical_value_is_invalid_data() {
    // Marker flag set, but the payload is at least the modulus.
    let v: u32 = 0x8000_0000u32 | (MODULUS as u32);
    let mut bytes: Vec<u8> = Vec::new();
    bytes.extend_from_slice(&v.to_le_bytes());
    bytes.extend_from_slice(&v.to_le_bytes());
    bytes.extend_from_slice(&v.to_le_bytes());
    let r = Proof::read_compressed(&bytes);
    assert_eq!(r.unwrap_err(), SerializationError::InvalidData);
}
