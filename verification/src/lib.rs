//! Core of a shielded-value transfer protocol: a dual-mode arithmetic
//! abstraction that runs the same algorithm either natively over the
//! BLS12-381 scalar field or as circuit-constraint generation, a Poseidon
//! permutation hash built on that abstraction, an append-only Merkle
//! accumulator with membership paths, and the Mint / Claim relations that
//! compose them into provable statements.

pub mod arkworks;
pub mod circuit;
pub mod cli;
pub mod compiler;
pub mod config;
pub mod field;
pub mod ledger;
pub mod merkle_tree;
pub mod parameters;
pub mod proofsystem;
pub mod poseidon;
pub mod rand;
pub mod types;
pub mod util;
