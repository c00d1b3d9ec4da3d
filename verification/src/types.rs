//! Raw byte-level types at the system boundary.

use vstd::prelude::*;

verus! {

/// A secret key, as canonical field-element bytes.
pub type Key = [u8; 32];

/// A commitment, as canonical field-element bytes.
pub type Utxo = [u8; 32];

/// A nullifier, as canonical field-element bytes.
pub type VoidNumber = [u8; 32];

/// A public balance.
pub type Balance = u64;

/// A serialized proof.
pub type ZKP = [u8; 192];

/// A Merkle root, as canonical field-element bytes.
pub type MerkleRoot = [u8; 32];

/// A hash digest, as canonical field-element bytes.
pub type HashDigest = [u8; 32];

/// Depth of the accumulator.
pub const MERKLE_TREE_DEPTH: usize = 20;

/// The fixed face value of every private coin.
pub const COIN_NOMINATION: u64 = 1000;

} // verus!
