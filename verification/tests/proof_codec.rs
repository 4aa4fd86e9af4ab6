use groth16::circuits::MulCircuit;
use groth16::codec::SerializationError;
use groth16::field::Fr;
use groth16::generator::generate_parameters;
use groth16::keys::{Parameters, Proof, VerifyingKey};
use groth16::prover::create_proof;

fn demo_params() -> Parameters {
    let circuit = MulCircuit {
        a: Some(Fr::from_u64(2)),
        b: Some(Fr::from_u64(3)),
        c: Some(Fr::from_u64(6)),
    };
    generate_parameters(
        &circuit,
        Fr::from_u64(5),
        Fr::from_u64(7),
        Fr::from_u64(11),
        Fr::from_u64(13),
        Fr::from_u64(17),
    )
    .unwrap()
}

fn demo_proof() -> Proof {
    let circuit = MulCircuit {
        a: Some(Fr::from_u64(2)),
        b: Some(Fr::from_u64(3)),
        c: Some(Fr::from_u64(6)),
    };
    let params = demo_params();
    create_proof(&circuit, &params, Fr::from_u64(19), Fr::from_u64(23)).unwrap()
}

#[test]
fn proof_sizes_are_fixed() {
    assert_eq!(Proof::compressed_proof_size(), 12);
    assert_eq!(Proof::uncompressed_proof_size(), 24);
    let p = demo_proof();
    assert_eq!(p.write_compressed().len(), 12);
    assert_eq!(p.write_uncompressed().len(), 24);
}

#[test]
fn proof_round_trip_compressed() {
    let p = demo_proof();
    let bytes = p.write_compressed();
    let q = Proof::read_compressed(&bytes).unwrap();
    assert_eq!(p, q);
    assert!(q.compressed);
}

#[test]
fn proof_round_trip_uncompressed() {
    let p = demo_proof();
    let bytes = p.write_uncompressed();
    let q = Proof::read_uncompressed(&bytes).unwrap();
    assert_eq!(p, q);
    assert!(!q.compressed);
}

#[test]
fn proof_read_auto_detects_both_forms() {
    let p = demo_proof();
    let compressed = p.write_compressed();
    let uncompressed = p.write_uncompressed();
    let from_compressed = Proof::read(&compressed).unwrap();
    let from_uncompressed = Proof::read(&uncompressed).unwrap();
    assert_eq!(from_compressed, p);
    assert_eq!(from_uncompressed, p);
    // The flag records which wire form the auto-detector found.
    assert!(from_compressed.compressed);
    assert!(!from_uncompressed.compressed);
}

#[test]
fn proof_truncated_uncompressed_fails_with_truncation_error() {
    let p = demo_proof();
    let uncompressed = p.write_uncompressed();
    let full = uncompressed.len();
    for cut in [0, 1, 11, 12, 13, 23] {
        assert!(cut < full);
        let prefix: Vec<u8> = uncompressed[..cut].to_vec();
        let r = Proof::read(&prefix);
        assert_eq!(r.unwrap_err(), SerializationError::UnexpectedEnd);
    }
}

#[test]
fn compressed_decode_rejects_missing_marker() {
    let p = demo_proof();
    let uncompressed = p.write_uncompressed();
    let first_twelve: Vec<u8> = uncompressed[..12].to_vec();
    let r = Proof::read_compressed(&first_twelve);
    assert_eq!(r.unwrap_err(), SerializationError::UnexpectedFlags);
}

#[test]
fn uncompressed_decode_rejects_inconsistent_coordinate() {
    let p = demo_proof();
    let mut bytes = p.write_uncompressed();
    // Flip a bit of the first companion coordinate.
    bytes[4] ^= 1;
    let r = Proof::read_uncompressed(&bytes);
    assert_eq!(r.unwrap_err(), SerializationError::InvalidData);
}

#[test]
fn verifying_key_round_trip() {
    let params = demo_params();
    let vk = params.vk;
    let bytes = vk.write();
    let vk2 = VerifyingKey::read(&bytes).unwrap();
    assert_eq!(vk, vk2);
}

#[test]
fn parameters_round_trip_checked_and_unchecked() {
    let params = demo_params();
    let bytes = params.write();
    let p_unchecked = Parameters::read(&bytes, false).unwrap();
    let p_checked = Parameters::read(&bytes, true).unwrap();
    assert_eq!(params, p_unchecked);
    assert_eq!(params, p_checked);
}

#[test]
fn verifying_key_extracts_from_parameters() {
    let params = demo_params();
    let expected = params.vk.clone();
    let vk = VerifyingKey::from(params);
    assert_eq!(vk, expected);
}

#[test]
fn verifying_key_truncated_fails() {
    let params = demo_params();
    let bytes = params.vk.write();
    let prefix: Vec<u8> = bytes[..bytes.len() - 1].to_vec();
    let r = VerifyingKey::read(&prefix);
    assert_eq!(r.unwrap_err(), SerializationError::UnexpectedEnd);
}
