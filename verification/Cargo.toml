[package]
name = "sha256d_groth16"
version = "0.1.0"
edition = "2021"
publish = false

[dependencies]
bellman = "0.14"
bincode = "1.3"
bls12_381 = "0.8"
ff = "0.13"
libc = "0.2"
rand = "0.8"
serde = "1"
serde_bytes = "0.11"

[dev-dependencies]
sha2 = "0.10"
