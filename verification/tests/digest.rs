use bellman::gadgets::boolean::{AllocatedBit, Boolean};
use bellman::gadgets::multipack;
use bellman::gadgets::sha256::sha256;
use bellman::gadgets::test::TestConstraintSystem;
use bellman::{ConstraintSystem, SynthesisError};
use bls12_381::Scalar;
use sha2::{Digest, Sha256};
use sha256d_groth16::bits::reverse_bits_per_byte;
use sha256d_groth16::boundary::fixed_preimage;
use sha256d_groth16::circuit::{bit_label, FFICircuit};

fn double_sha256(bytes: &[u8]) -> Vec<u8> {
    Sha256::digest(Sha256::digest(bytes)).to_vec()
}

/// Builds the statement and returns the digest bits that the circuit exposes.
fn synthesize<CS: ConstraintSystem<Scalar>>(
    cs: &mut CS,
    circuit: &FFICircuit,
) -> Result<Vec<Boolean>, SynthesisError> {
    let mut bits = Vec::new();
    for (i, value) in circuit.bit_values().into_iter().enumerate() {
        let bit = AllocatedBit::alloc(cs.namespace(|| bit_label(i)), value)?;
        bits.push(Boolean::from(bit));
    }
    let input = reverse_bits_per_byte(bits);
    let mid = sha256(cs.namespace(|| "SHA-256(input)"), &input)?;
    let res = sha256(cs.namespace(|| "SHA-256(mid)"), &mid)?;
    let digest = reverse_bits_per_byte(res);
    multipack::pack_into_inputs(cs.namespace(|| "pack hash"), &digest)?;
    Ok(digest)
}

fn pack_lsb_first(bits: &[Boolean]) -> Vec<u8> {
    bits.chunks(8)
        .map(|byte| {
            byte.iter()
                .enumerate()
                .fold(0u8, |acc, (i, bit)| acc | ((bit.get_value().unwrap() as u8) << i))
        })
        .collect()
}

fn check_digest_of(input: &[u8]) {
    let preimage = fixed_preimage(input);
    let mut cs = TestConstraintSystem::<Scalar>::new();
    let digest = synthesize(&mut cs, &FFICircuit { preimage: Some(preimage) }).unwrap();
    assert_eq!(digest.len(), 256);
    let expected = double_sha256(&preimage);
    assert_eq!(pack_lsb_first(&digest), expected);
    assert!(cs.is_satisfied());
    let inputs = multipack::compute_multipacking::<Scalar>(&multipack::bytes_to_bits_le(&expected));
    assert_eq!(inputs.len(), 2);
    assert_eq!(cs.num_inputs(), 3);
    assert!(cs.verify(&inputs));
}

#[test]
fn digest_of_zero_preimage_is_double_sha256() {
    check_digest_of(&[0u8; 80]);
}

#[test]
fn digest_of_abc_padded_is_double_sha256() {
    check_digest_of(b"abc");
}

#[test]
fn witnesses_are_found_under_their_names() {
    let preimage = fixed_preimage(b"abc");
    let mut cs = TestConstraintSystem::<Scalar>::new();
    synthesize(&mut cs, &FFICircuit { preimage: Some(preimage) }).unwrap();
    // 'a' = 0x61: bits 0, 5 and 6 are set
    assert_eq!(cs.get("preimage bit 0/boolean"), Scalar::from(1));
    assert_eq!(cs.get("preimage bit 1/boolean"), Scalar::from(0));
    assert_eq!(cs.get("preimage bit 5/boolean"), Scalar::from(1));
    assert_eq!(cs.get("preimage bit 6/boolean"), Scalar::from(1));
    assert_eq!(cs.get("preimage bit 7/boolean"), Scalar::from(0));
    assert_eq!(cs.get("preimage bit 639/boolean"), Scalar::from(0));
}

#[test]
fn circuit_exposes_two_packed_inputs() {
    let mut cs = TestConstraintSystem::<Scalar>::new();
    let digest = synthesize(&mut cs, &FFICircuit { preimage: Some([7u8; 80]) }).unwrap();
    assert_eq!(digest.len(), 256);
    // the constant one, then 254 and 2 bits of the digest
    assert_eq!(cs.num_inputs(), 3);
    assert!(cs.is_satisfied());
    let wrong = multipack::compute_multipacking::<Scalar>(&[false; 256]);
    assert!(!cs.verify(&wrong));
}

#[test]
fn circuit_without_preimage_cannot_be_assigned() {
    let mut cs = TestConstraintSystem::<Scalar>::new();
    let outcome = synthesize(&mut cs, &FFICircuit { preimage: None });
    assert!(matches!(outcome, Err(SynthesisError::AssignmentMissing)));
}

#[test]
fn digest_of_a_full_preimage_is_double_sha256() {
    let input: Vec<u8> = (0..80u8).map(|i| i.wrapping_mul(151).wrapping_add(13)).collect();
    check_digest_of(&input);
}
