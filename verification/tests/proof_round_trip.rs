//! End-to-end with the real proof system: key generation, proving, and
//! verification for the Mint relation, with tamper detection and the
//! byte-level checks of the ledger boundary.

use ark_bls12_381::{Bls12_381, Fr};
use ark_relations::r1cs::{ConstraintSynthesizer, ConstraintSystemRef, SynthesisError};
use ark_snark::SNARK;
use tornado::circuit::{mint_circuit, mint_keys_circuit, mint_public_inputs, Mint};
use tornado::config::Parameters;
use tornado::field::{fp_to_bytes, Field, Fp};
use tornado::ledger::is_valid_mint;
use tornado::proofsystem::{accepts, proof_from_bytes, proof_to_bytes, verify, Proof, ProvingKey, VerifyingKey};
use tornado::rand::rng_from_seed;
use tornado::types::COIN_NOMINATION;
use tornado::util::into_array_unchecked;

/// Hands a constraint system that the library already filled to the proof
/// system's synthesis entry point.
struct Synthesizer(ConstraintSystemRef<Fr>);

impl ConstraintSynthesizer<Fr> for Synthesizer {
    fn generate_constraints(self, cs: ConstraintSystemRef<Fr>) -> Result<(), SynthesisError> {
        let built = self.0.into_inner().expect("the library hands over sole ownership");
        let mut target = cs.borrow_mut().expect("a fresh constraint system is unborrowed");
        *target = built;
        Ok(())
    }
}

fn mint_keys(parameters: &Parameters, seed: u8) -> (ProvingKey, VerifyingKey) {
    let mut rng = rng_from_seed([seed; 32]);
    let circuit = mint_keys_circuit(parameters);
    let (pk, vk) = ark_groth16::Groth16::<Bls12_381>::circuit_specific_setup(
        Synthesizer(circuit.handle.cs),
        &mut rng.inner,
    )
    .expect("key generation succeeds");
    (ProvingKey { key: pk }, VerifyingKey { key: vk })
}

fn prove_mint(parameters: &Parameters, pk: &ProvingKey, mint: &Mint, seed: u8) -> Proof {
    let mut rng = rng_from_seed([seed; 32]);
    let circuit = mint_circuit(parameters, mint);
    let proof = ark_groth16::Groth16::<Bls12_381>::prove(
        &pk.key,
        Synthesizer(circuit.handle.cs),
        &mut rng.inner,
    )
    .expect("proving succeeds");
    Proof { proof }
}

#[test]
fn mint_proof_round_trip() {
    let mut rng = rng_from_seed([40; 32]);
    let parameters = Parameters::sample(&mut rng);
    let (pk, vk) = mint_keys(&parameters, 41);
    let key = Fp::from_u64(987654321);
    let value = Fp::from_u64(COIN_NOMINATION);
    let mint = Mint::new(&parameters, key, value);
    let proof = prove_mint(&parameters, &pk, &mint, 42);

    // The proof verifies over the public inputs [value, commitment].
    let inputs = mint_public_inputs(&mint.value, &mint.utxo);
    assert!(accepts(verify(&vk, &inputs, &proof)));

    // Tamper detection: perturbing any single public input rejects the
    // same proof.
    let wrong_value = mint_public_inputs(&Fp::add(&mint.value, &Fp::from_u64(1)), &mint.utxo);
    assert!(!accepts(verify(&vk, &wrong_value, &proof)));
    let wrong_utxo = mint_public_inputs(&mint.value, &Fp::add(&mint.utxo, &Fp::from_u64(1)));
    assert!(!accepts(verify(&vk, &wrong_utxo, &proof)));

    // The same round trip across the byte boundary, as the ledger sees it.
    let utxo_bytes: [u8; 32] = into_array_unchecked(fp_to_bytes(&mint.utxo));
    let proof_bytes: [u8; 192] = into_array_unchecked(proof_to_bytes(&proof));
    assert!(proof_from_bytes(&proof_bytes).is_some());
    assert!(is_valid_mint(&vk, utxo_bytes, proof_bytes));

    // A non-canonical commitment encoding is a rejection, not a crash.
    assert!(!is_valid_mint(&vk, [0xff; 32], proof_bytes));
    // A mangled proof encoding is a rejection, not a crash.
    let mut bad_proof = proof_bytes;
    bad_proof[0] ^= 0xff;
    bad_proof[1] ^= 0xff;
    assert!(!is_valid_mint(&vk, utxo_bytes, bad_proof));
}

#[test]
fn key_generation_shape_is_stable() {
    // Two independent key-generation runs, with different randomness,
    // both accept proofs for the same class of witnesses: the compiled
    // constraint shape is stable across runs.
    let mut rng = rng_from_seed([50; 32]);
    let parameters = Parameters::sample(&mut rng);
    let (pk1, vk1) = mint_keys(&parameters, 51);
    let (pk2, vk2) = mint_keys(&parameters, 52);
    let mint = Mint::new(&parameters, Fp::from_u64(1234), Fp::from_u64(5678));
    let inputs = mint_public_inputs(&mint.value, &mint.utxo);
    let proof1 = prove_mint(&parameters, &pk1, &mint, 53);
    assert!(accepts(verify(&vk1, &inputs, &proof1)));
    let proof2 = prove_mint(&parameters, &pk2, &mint, 54);
    assert!(accepts(verify(&vk2, &inputs, &proof2)));
    // Keys from one run do not validate proofs from the other.
    assert!(!accepts(verify(&vk2, &inputs, &proof1)));
}
