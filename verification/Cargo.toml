[package]
name = "tornado"
version = "0.1.0"
edition = "2021"
publish = false

[dependencies]
ark-bls12-381 = "0.3"
ark-ec = "0.3"
ark-ff = "0.3"
ark-groth16 = "0.3"
ark-r1cs-std = "0.3"
ark-relations = "0.3"
ark-serialize = "0.3"
ark-snark = "0.3"
rand_chacha = "0.3"
rand_core = { version = "0.6", features = ["getrandom"] }
hex = "0.4"
clap = { version = "3", features = ["derive"] }
anyhow = "1"
