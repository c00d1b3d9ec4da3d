//! End-to-end with the real proof system for the Claim relation.

use ark_bls12_381::{Bls12_381, Fr};
use ark_relations::r1cs::{ConstraintSynthesizer, ConstraintSystemRef, SynthesisError};
use ark_snark::SNARK;
use tornado::circuit::{claim_circuit, claim_keys_circuit, claim_public_inputs, Claim, Mint};
use tornado::config::Parameters;
use tornado::field::{fp_to_bytes, Field, Fp};
use tornado::merkle_tree::Accumulator;
use tornado::ledger::is_valid_claim;
use tornado::proofsystem::{accepts, proof_to_bytes, verify, Proof, ProvingKey, VerifyingKey};
use tornado::rand::rng_from_seed;
use tornado::types::COIN_NOMINATION;
use tornado::util::into_array_unchecked;

/// Hands a constraint system that the library already filled to the proof
/// system's synthesis entry point.
struct ClaimSynthesizer(ConstraintSystemRef<Fr>);

impl ConstraintSynthesizer<Fr> for ClaimSynthesizer {
    fn generate_constraints(self, cs: ConstraintSystemRef<Fr>) -> Result<(), SynthesisError> {
        let built = self.0.into_inner().expect("the library hands over sole ownership");
        let mut target = cs.borrow_mut().expect("a fresh constraint system is unborrowed");
        *target = built;
        Ok(())
    }
}

#[test]
fn claim_proof_round_trip() {
    let mut rng = rng_from_seed([60; 32]);
    let parameters = Parameters::sample(&mut rng);
    let (pk, vk) = {
        let circuit = claim_keys_circuit(&parameters);
        let (pk, vk) = ark_groth16::Groth16::<Bls12_381>::circuit_specific_setup(
            ClaimSynthesizer(circuit.handle.cs),
            &mut rng.inner,
        )
        .expect("key generation succeeds");
        (ProvingKey { key: pk }, VerifyingKey { key: vk })
    };

    let key = Fp::from_u64(24680);
    let value = Fp::from_u64(COIN_NOMINATION);
    let mint = Mint::new(&parameters, key, value);
    let mut accumulator = Accumulator::new(parameters.merkle_tree_parameters.clone());
    accumulator.insert(Fp::from_u64(5)).unwrap();
    accumulator.insert(mint.utxo).unwrap();
    let claim = Claim::new(&parameters, &accumulator, key, value).expect("commitment is present");

    let proof = {
        let circuit = claim_circuit(&parameters, &claim);
        Proof {
            proof: ark_groth16::Groth16::<Bls12_381>::prove(
                &pk.key,
                ClaimSynthesizer(circuit.handle.cs),
                &mut rng.inner,
            )
            .expect("proving succeeds"),
        }
    };

    // The proof verifies over the public inputs [value, root, nullifier].
    let inputs = claim_public_inputs(&claim.value, &claim.root, &claim.void_number);
    assert!(accepts(verify(&vk, &inputs, &proof)));

    // Tamper detection: perturbing any single public input rejects it.
    let one = Fp::from_u64(1);
    let wrong_value =
        claim_public_inputs(&Fp::add(&claim.value, &one), &claim.root, &claim.void_number);
    assert!(!accepts(verify(&vk, &wrong_value, &proof)));
    let wrong_root =
        claim_public_inputs(&claim.value, &Fp::add(&claim.root, &one), &claim.void_number);
    assert!(!accepts(verify(&vk, &wrong_root, &proof)));
    let wrong_nullifier =
        claim_public_inputs(&claim.value, &claim.root, &Fp::add(&claim.void_number, &one));
    assert!(!accepts(verify(&vk, &wrong_nullifier, &proof)));

    // The same round trip across the byte boundary, as the ledger sees it.
    let root_bytes: [u8; 32] = into_array_unchecked(fp_to_bytes(&claim.root));
    let nullifier_bytes: [u8; 32] = into_array_unchecked(fp_to_bytes(&claim.void_number));
    let proof_bytes: [u8; 192] = into_array_unchecked(proof_to_bytes(&proof));
    assert!(is_valid_claim(&vk, root_bytes, nullifier_bytes, proof_bytes));
    // Non-canonical public values are rejections, never crashes.
    assert!(!is_valid_claim(&vk, [0xff; 32], nullifier_bytes, proof_bytes));
    assert!(!is_valid_claim(&vk, root_bytes, [0xff; 32], proof_bytes));
    let mut bad_proof = proof_bytes;
    bad_proof[3] ^= 0xff;
    bad_proof[4] ^= 0xff;
    assert!(!is_valid_claim(&vk, root_bytes, nullifier_bytes, bad_proof));
}
