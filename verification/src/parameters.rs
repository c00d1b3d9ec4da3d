//! Deterministic setup: the protocol parameters and the two relations'
//! key-generation circuits, derived from a fixed seed so that every party
//! compiles the same relations.

use vstd::prelude::*;
use crate::arkworks::Circuit;
use crate::circuit::{claim_keys_circuit, mint_keys_circuit};
use crate::config::{Parameters, sampled_from};
use crate::field::lemma_value_injective;
use crate::rand::{SeededRng, rng_from_seed};

verus! {

/// The fixed setup seed, as the draw sequence sees it.
pub open spec fn setup_seed() -> Seq<u8> {
    Seq::new(32, |i: int| 8u8)
}

/// Samples the protocol parameters from the fixed seed and compiles the
/// Mint and Claim relation shapes; the external proof system turns each
/// compiled circuit into a proving/verifying key pair.  The generator is
/// returned with the circuits so that key generation can keep consuming
/// the same fixed stream and every party derives the same keys.
pub fn generate() -> (r: (Parameters, Circuit, Circuit, SeededRng))
    ensures
        r.0.wf(),
        sampled_from(r.0, setup_seed(), 0),
        r.1.setup@,
        r.2.setup@,
{
    let seed = [8u8; 32];
    proof {
        assert(seed@ =~= setup_seed());
    }
    let mut rng = rng_from_seed(seed);
    let parameters = Parameters::sample(&mut rng);
    let mint_circuit = mint_keys_circuit(&parameters);
    let claim_circuit = claim_keys_circuit(&parameters);
    (parameters, mint_circuit, claim_circuit, rng)
}

/// Setup determinism: any two parameter sets sampled from the same seed
/// and position agree, observably: same round structure and the same round
/// keys and matrices, element for element.  The hypotheses are exactly
/// what `generate` (or `Parameters::sample`) ensures of each.
pub proof fn lemma_setup_deterministic(a: Parameters, b: Parameters, seed: Seq<u8>, start: nat)
    requires
        sampled_from(a, seed, start),
        sampled_from(b, seed, start),
    ensures
        a.utxo_hash.round_keys@ == b.utxo_hash.round_keys@,
        a.utxo_hash.mds_matrix@ == b.utxo_hash.mds_matrix@,
        a.void_number_hash.round_keys@ == b.void_number_hash.round_keys@,
        a.void_number_hash.mds_matrix@ == b.void_number_hash.mds_matrix@,
        a.merkle_tree_parameters.round_keys@ == b.merkle_tree_parameters.round_keys@,
        a.merkle_tree_parameters.mds_matrix@ == b.merkle_tree_parameters.mds_matrix@,
        a.utxo_hash.full_rounds == b.utxo_hash.full_rounds,
        a.utxo_hash.partial_rounds == b.utxo_hash.partial_rounds,
        a.utxo_hash.sbox_exponent == b.utxo_hash.sbox_exponent,
{
    lemma_same_draws(a.utxo_hash.round_keys@, b.utxo_hash.round_keys@);
    lemma_same_draws(a.utxo_hash.mds_matrix@, b.utxo_hash.mds_matrix@);
    lemma_same_draws(a.void_number_hash.round_keys@, b.void_number_hash.round_keys@);
    lemma_same_draws(a.void_number_hash.mds_matrix@, b.void_number_hash.mds_matrix@);
    lemma_same_draws(a.merkle_tree_parameters.round_keys@, b.merkle_tree_parameters.round_keys@);
    lemma_same_draws(a.merkle_tree_parameters.mds_matrix@, b.merkle_tree_parameters.mds_matrix@);
}

/// Two element vectors with the same values are the same, element for
/// element: the canonical representation is unique.
proof fn lemma_same_draws(a: Seq<crate::field::Fp>, b: Seq<crate::field::Fp>)
    requires
        crate::field::fp_vals(a) == crate::field::fp_vals(b),
    ensures
        a == b,
{
    assert(a.len() == b.len()) by {
        assert(crate::field::fp_vals(a).len() == a.len());
        assert(crate::field::fp_vals(b).len() == b.len());
    }
    assert forall|i: int| 0 <= i < a.len() implies a[i] == b[i] by {
        assert(crate::field::fp_vals(a)[i] == a[i]@);
        assert(crate::field::fp_vals(b)[i] == b[i]@);
        lemma_value_injective(a[i], b[i]);
    }
    assert(a =~= b);
}

} // verus!
