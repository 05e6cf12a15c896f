[package]
name = "zk_r1cs"
version = "0.1.0"
edition = "2021"
publish = false

[dependencies]
ark-ff = "0.4"
ark-relations = "0.4"
ark-groth16 = "0.4"
ark-bls12-381 = "0.4"
ark-snark = "0.4"
ark-std = "0.4"
