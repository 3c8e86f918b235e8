//! The two operations offered to callers, as far as they are computation:
//! fixing the preimage before proving, and deciding on a proof.

use crate::codec::{
    decoding, encoding, is_valid_encoding, lemma_decoding_accepts_only_encodings,
    lemma_decoding_inverts_encoding, well_formed, ProofPoints, SerializableProof,
};
use crate::curve::{is_g1_point, is_g2_point};
use bellman::groth16::{prepare_verifying_key, Proof, VerifyingKey};
use bls12_381::{Bls12, G1Affine, G2Affine};
use vstd::prelude::*;

verus! {

/// Whether the Groth16 verifier of `bellman` accepts a proof against no
/// public input. The proof is given by its three compressed points, the
/// verifying key by the bytes that `VerifyingKey::write` produces for it;
/// bytes that `VerifyingKey::read` does not take count as a refusal.
pub uninterp spec fn groth16_accepts(
    verifying_key: Seq<u8>,
    a: Seq<u8>,
    b: Seq<u8>,
    c: Seq<u8>,
) -> bool;

/// Reads the verifying key with `bellman::groth16::VerifyingKey::read`,
/// prepares it with `prepare_verifying_key` and runs
/// `bellman::groth16::verify_proof` on the three points with an empty list of
/// public inputs. The points must be valid, so that decompressing them cannot
/// fail. Nothing is claimed beyond the name given to the verifier's answer.
#[verifier::external_body]
fn pairing_check(verifying_key: &[u8], a: &[u8; 48], b: &[u8; 96], c: &[u8; 48]) -> (accepted: bool)
    requires
        is_g1_point(a@),
        is_g2_point(b@),
        is_g1_point(c@),
    ensures
        accepted == groth16_accepts(verifying_key@, a@, b@, c@),
{
    let key = match VerifyingKey::<Bls12>::read(verifying_key) {
        Ok(key) => key,
        Err(_) => return false,
    };
    let proof = Proof::<Bls12> {
        a: G1Affine::from_compressed(a).unwrap(),
        b: G2Affine::from_compressed(b).unwrap(),
        c: G1Affine::from_compressed(c).unwrap(),
    };
    bellman::groth16::verify_proof(&prepare_verifying_key(&key), &proof, &[]).is_ok()
}

/// `input` cut or filled with zero bytes to the 80 bytes of a preimage.
pub open spec fn zero_padded(input: Seq<u8>) -> Seq<u8> {
    Seq::new(
        80,
        |i: int|
            if i < input.len() {
                input[i]
            } else {
                0u8
            },
    )
}

/// Copies up to 80 bytes of `input` and fills the rest with zero bytes.
pub fn fixed_preimage(input: &[u8]) -> (preimage: [u8; 80])
    ensures
        preimage@ == zero_padded(input@),
{
    let mut preimage: [u8; 80] = [0u8; 80];
    let n: usize = if input.len() < 80 { input.len() } else { 80 };
    let mut i: usize = 0;
    while i < n
        invariant
            i <= n,
            n <= 80,
            n <= input.len(),
            forall|j: int| 0 <= j < i ==> preimage@[j] == input@[j],
            forall|j: int| i <= j < 80 ==> preimage@[j] == 0u8,
        decreases n - i,
    {
        preimage[i] = input[i];
        i += 1;
    }
    preimage
}

impl SerializableProof {
    /// Checks the proof under a verifying key in its serial form. The
    /// verifier is given no public input: the digest that the circuit commits
    /// to is not compared with any value of the caller.
    pub fn verify(&self, verifying_key: &[u8]) -> (accepted: bool)
        ensures
            accepted == groth16_accepts(verifying_key@, self@.a, self@.b, self@.c),
    {
        pairing_check(verifying_key, self.a(), self.b(), self.c())
    }
}

/// The decision on an encoded proof under a verifying key in its serial
/// form: bytes that do not decode are rejected, a decoded proof gets the
/// answer of the Groth16 verifier.
pub open spec fn verdict(encoded: Seq<u8>, verifying_key: Seq<u8>) -> bool {
    match decoding(encoded) {
        Some(v) => groth16_accepts(verifying_key, v.a, v.b, v.c),
        None => false,
    }
}

/// Decides on an encoded proof under a verifying key in its serial form.
/// Bytes that are not the wire form of a well-formed proof are rejected
/// without a look at the key; a decoded proof is accepted when the Groth16
/// verifier accepts it against no public input.
pub fn verify_proof(encoded: &[u8], verifying_key: &[u8]) -> (accepted: bool)
    ensures
        accepted == verdict(encoded@, verifying_key@),
        !is_valid_encoding(encoded@) ==> !accepted,
{
    proof {
        lemma_decoding_accepts_only_encodings(encoded@);
    }
    match SerializableProof::deserialize(encoded) {
        Ok(decoded) => decoded.verify(verifying_key),
        Err(_) => false,
    }
}

/// Whatever the key, bytes that are not the wire form of a well-formed proof
/// are rejected.
pub proof fn lemma_invalid_encoding_is_rejected(encoded: Seq<u8>, verifying_key: Seq<u8>)
    requires
        !is_valid_encoding(encoded),
    ensures
        !verdict(encoded, verifying_key),
{
    lemma_decoding_accepts_only_encodings(encoded);
}

/// The wire form of a proof gets the verdict that the Groth16 verifier gives
/// on the proof itself: encoding and decoding lose nothing of it.
pub proof fn lemma_encoding_keeps_the_verdict(v: ProofPoints, verifying_key: Seq<u8>)
    requires
        well_formed(v),
    ensures
        verdict(encoding(v), verifying_key) == groth16_accepts(verifying_key, v.a, v.b, v.c),
{
    lemma_decoding_inverts_encoding(v);
}

/// Zero bytes appended to an input of at most 80 bytes do not change the
/// preimage that is proved.
pub proof fn lemma_trailing_zeros_keep_preimage(input: Seq<u8>, zeros: Seq<u8>)
    requires
        input.len() <= 80,
        forall|i: int| 0 <= i < zeros.len() ==> zeros[i] == 0u8,
    ensures
        zero_padded(input + zeros) == zero_padded(input),
{
}

} // verus!
