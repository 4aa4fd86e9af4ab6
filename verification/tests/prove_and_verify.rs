use groth16::circuits::MulCircuit;
use groth16::field::Fr;
use groth16::generator::generate_parameters;
use groth16::keys::{Parameters, Proof};
use groth16::prover::{create_proof, create_proof_no_zk, create_random_proof};
use groth16::r1cs::SynthesisError;
use groth16::verify::{PreparedVerifyingKey, prepare_verifying_key, verify_proof};

fn demo_circuit() -> MulCircuit {
    MulCircuit {
        a: Some(Fr::from_u64(2)),
        b: Some(Fr::from_u64(3)),
        c: Some(Fr::from_u64(6)),
    }
}

fn demo_params() -> Parameters {
    generate_parameters(
        &demo_circuit(),
        Fr::from_u64(5),
        Fr::from_u64(7),
        Fr::from_u64(11),
        Fr::from_u64(13),
        Fr::from_u64(17),
    )
    .unwrap()
}

#[test]
fn mul_circuit_proof_verifies() {
    let params = demo_params();
    let pvk = prepare_verifying_key(params.vk.clone());
    let proof = create_proof_no_zk(&demo_circuit(), &params).unwrap();
    let inputs = vec![Fr::from_u64(6)];
    assert_eq!(verify_proof(&pvk, &proof, &inputs).unwrap(), true);
}

#[test]
fn blinding_does_not_affect_acceptance() {
    let params = demo_params();
    let pvk = prepare_verifying_key(params.vk.clone());
    let inputs = vec![Fr::from_u64(6)];
    let pairs: [(u64, u64); 4] = [(0, 0), (19, 23), (1, 1), (987654321, 123456789)];
    for (r, s) in pairs {
        let proof =
            create_proof(&demo_circuit(), &params, Fr::from_u64(r), Fr::from_u64(s)).unwrap();
        assert_eq!(verify_proof(&pvk, &proof, &inputs).unwrap(), true);
    }
    for _ in 0..3 {
        let proof = create_random_proof(&demo_circuit(), &params).unwrap();
        assert_eq!(verify_proof(&pvk, &proof, &inputs).unwrap(), true);
    }
}

#[test]
fn wrong_public_input_is_rejected() {
    let params = demo_params();
    let pvk = prepare_verifying_key(params.vk.clone());
    let proof = create_proof_no_zk(&demo_circuit(), &params).unwrap();
    let wrong = vec![Fr::from_u64(7)];
    assert_eq!(verify_proof(&pvk, &proof, &wrong).unwrap(), false);
}

#[test]
fn inconsistent_witness_fails_at_synthesis() {
    let params = demo_params();
    let bad = MulCircuit {
        a: Some(Fr::from_u64(2)),
        b: Some(Fr::from_u64(4)),
        c: Some(Fr::from_u64(6)),
    };
    let r = create_proof_no_zk(&bad, &params);
    assert_eq!(r.unwrap_err(), SynthesisError::Unsatisfiable);
}

#[test]
fn missing_witness_fails_at_synthesis() {
    let params = demo_params();
    let incomplete = MulCircuit { a: Some(Fr::from_u64(2)), b: None, c: Some(Fr::from_u64(6)) };
    let r = create_proof_no_zk(&incomplete, &params);
    assert_eq!(r.unwrap_err(), SynthesisError::AssignmentMissing);
}

#[test]
fn mismatched_input_vector_length_is_an_error() {
    let params = demo_params();
    let pvk = prepare_verifying_key(params.vk.clone());
    let proof = create_proof_no_zk(&demo_circuit(), &params).unwrap();
    let too_many = vec![Fr::from_u64(6), Fr::from_u64(1)];
    assert_eq!(
        verify_proof(&pvk, &proof, &too_many).unwrap_err(),
        SynthesisError::MalformedVerifyingKey
    );
    let too_few: Vec<Fr> = Vec::new();
    assert_eq!(
        verify_proof(&pvk, &proof, &too_few).unwrap_err(),
        SynthesisError::MalformedVerifyingKey
    );
}

#[test]
fn single_byte_mutations_never_verify() {
    let params = demo_params();
    let pvk = prepare_verifying_key(params.vk.clone());
    let proof = create_proof_no_zk(&demo_circuit(), &params).unwrap();
    let inputs = vec![Fr::from_u64(6)];

    // Compressed form: a mutation either fails to decode or decodes to a
    // proof the pairing check rejects.
    let compressed = proof.write_compressed();
    for pos in 0..compressed.len() {
        let mut mutated = compressed.clone();
        mutated[pos] ^= 1;
        match Proof::read(&mutated) {
            Ok(p) => {
                assert_eq!(verify_proof(&pvk, &p, &inputs).unwrap(), false, "byte {}", pos);
            }
            Err(_) => {}
        }
    }

    // Uncompressed form likewise.
    let uncompressed = proof.write_uncompressed();
    for pos in 0..uncompressed.len() {
        let mut mutated = uncompressed.clone();
        mutated[pos] ^= 1;
        match Proof::read_uncompressed(&mutated) {
            Ok(p) => {
                assert_eq!(verify_proof(&pvk, &p, &inputs).unwrap(), false, "byte {}", pos);
            }
            Err(_) => {}
        }
    }
}

#[test]
fn prepared_key_conversions_agree_with_preparation() {
    let params = demo_params();
    let proof = create_proof_no_zk(&demo_circuit(), &params).unwrap();
    let inputs = vec![Fr::from_u64(6)];
    let from_vk = PreparedVerifyingKey::from(params.vk.clone());
    let from_params = PreparedVerifyingKey::from(params);
    assert_eq!(verify_proof(&from_vk, &proof, &inputs).unwrap(), true);
    assert_eq!(verify_proof(&from_params, &proof, &inputs).unwrap(), true);
}

#[test]
fn proof_equality_ignores_wire_form_flag() {
    let params = demo_params();
    let proof = create_proof_no_zk(&demo_circuit(), &params).unwrap();
    let bytes = proof.write_uncompressed();
    let reread = Proof::read_uncompressed(&bytes).unwrap();
    assert!(proof.compressed);
    assert!(!reread.compressed);
    assert_eq!(proof, reread);
}
