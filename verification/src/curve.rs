//! Point validation on BLS12-381, done by the `bls12_381` crate.
//!
//! Whether bytes are the compressed form of a group element is decided by
//! field arithmetic that this crate does not repeat. The answer is a fixed
//! function of the bytes, so contracts refer to it by name.

use bls12_381::{G1Affine, G2Affine};
use vstd::prelude::*;

verus! {

/// Whether `G1Affine::from_compressed` accepts `bytes`: they are 48 bytes in
/// the compressed form of a point on the curve and in the prime-order
/// subgroup of the first pairing group.
pub uninterp spec fn is_g1_point(bytes: Seq<u8>) -> bool;

/// Whether `G2Affine::from_compressed` accepts `bytes`: they are 96 bytes in
/// the compressed form of a point on the twist and in the prime-order
/// subgroup of the second pairing group.
pub uninterp spec fn is_g2_point(bytes: Seq<u8>) -> bool;

/// Calls `bls12_381::G1Affine::from_compressed` and reports whether it
/// produced a point. Nothing is claimed beyond the name given to that answer.
#[verifier::external_body]
pub(crate) fn g1_decompresses(bytes: &[u8; 48]) -> (valid: bool)
    ensures
        valid == is_g1_point(bytes@),
{
    G1Affine::from_compressed(bytes).is_some().into()
}

/// Calls `bls12_381::G2Affine::from_compressed` and reports whether it
/// produced a point. Nothing is claimed beyond the name given to that answer.
#[verifier::external_body]
pub(crate) fn g2_decompresses(bytes: &[u8; 96]) -> (valid: bool)
    ensures
        valid == is_g2_point(bytes@),
{
    G2Affine::from_compressed(bytes).is_some().into()
}

} // verus!
