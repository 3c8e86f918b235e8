//! Knowledge proofs for an 80-byte preimage of a double SHA-256 digest.
//!
//! The crate holds the parts of the protocol that are plain computation: the
//! bit conventions of the statement circuit, the shape of its witness, the
//! wire form of a Groth16 proof over BLS12-381, and the verifier's decision.
//! Curve arithmetic and the pairing check are left to `bls12_381` and
//! `bellman`, behind the few functions in `curve` and `boundary` whose
//! contracts are taken on trust, as is the contract that `bits` gives to the
//! slice method `swap` of std.

pub mod bits;
pub mod boundary;
pub mod circuit;
pub mod codec;
pub mod curve;
