[package]
name = "proof_dispatch"
version = "0.1.0"
edition = "2021"
publish = false

[dependencies]
circom-prover = "=0.1.4"
mopro-ffi = "=0.3.7"
rust-witness = "=0.1.6"
serde_json = "=1.0.154"

[dev-dependencies]
num-bigint = "=0.4.8"
