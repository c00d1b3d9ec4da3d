//! The Mint and Claim relations, natively and as circuits.

use tornado::arkworks::Circuit;
use tornado::circuit::{claim_circuit, mint_circuit, Claim, ClaimVar, Mint, MintVar};
use tornado::compiler::NativeCompiler;
use tornado::config::Parameters;
use tornado::field::{Field, Fp};
use tornado::merkle_tree::Accumulator;
use tornado::parameters::generate;
use tornado::rand::rng_from_seed;

fn test_setup(seed: u8) -> (Parameters, Accumulator) {
    let mut rng = rng_from_seed([seed; 32]);
    let parameters = Parameters::sample(&mut rng);
    let accumulator = Accumulator::new(parameters.merkle_tree_parameters.clone());
    (parameters, accumulator)
}

#[test]
fn mint_soundness() {
    // A constructed Mint witness always satisfies the relation; mutating
    // the commitment afterwards makes the assertion fail.
    let (parameters, _) = test_setup(20);
    let mut compiler = NativeCompiler;
    let mint = Mint::new(&parameters, Fp::from_u64(111), Fp::from_u64(222));
    assert!(mint.assert_valid(&parameters, &mut compiler).is_ok());
    let mut tampered = Mint { ..mint };
    tampered.utxo = Fp::add(&tampered.utxo, &Fp::from_u64(1));
    assert!(tampered.assert_valid(&parameters, &mut compiler).is_err());
}

#[test]
fn claim_soundness() {
    // With the commitment in the accumulator, Claim::new succeeds and its
    // assertion passes; for a pair never inserted it reports no such
    // membership.
    let (parameters, mut accumulator) = test_setup(21);
    let key = Fp::from_u64(5);
    let value = Fp::from_u64(1000);
    let mint = Mint::new(&parameters, key, value);
    accumulator.insert(mint.utxo).unwrap();
    let claim = Claim::new(&parameters, &accumulator, key, value).expect("commitment is present");
    let mut compiler = NativeCompiler;
    assert!(claim.assert_valid(&parameters, &mut compiler).is_ok());
    assert_eq!(claim.root, accumulator.root());
    assert!(Claim::new(&parameters, &accumulator, key, Fp::from_u64(1001)).is_none());
    assert!(Claim::new(&parameters, &accumulator, Fp::from_u64(6), value).is_none());
}

#[test]
fn claim_tampered_witness_fails_natively() {
    let (parameters, mut accumulator) = test_setup(22);
    let key = Fp::from_u64(8);
    let value = Fp::from_u64(9);
    let mint = Mint::new(&parameters, key, value);
    accumulator.insert(mint.utxo).unwrap();
    let claim = Claim::new(&parameters, &accumulator, key, value).unwrap();
    let mut compiler = NativeCompiler;
    let mut wrong_nullifier = claim.clone();
    wrong_nullifier.void_number = Fp::add(&wrong_nullifier.void_number, &Fp::from_u64(1));
    assert!(wrong_nullifier.assert_valid(&parameters, &mut compiler).is_err());
    let mut wrong_root = claim.clone();
    wrong_root.root = Fp::add(&wrong_root.root, &Fp::from_u64(1));
    assert!(wrong_root.assert_valid(&parameters, &mut compiler).is_err());
}

#[test]
fn mint_circuit_is_satisfied_by_honest_witness() {
    let (parameters, _) = test_setup(23);
    let mint = Mint::new(&parameters, Fp::from_u64(31), Fp::from_u64(32));
    let circuit = mint_circuit(&parameters, &mint);
    assert!(circuit.handle.cs.is_satisfied().unwrap());
    // A tampered commitment leaves the constraints unsatisfied.
    let mut tampered = Mint { ..mint };
    tampered.utxo = Fp::add(&tampered.utxo, &Fp::from_u64(1));
    let circuit = mint_circuit(&parameters, &tampered);
    assert!(!circuit.handle.cs.is_satisfied().unwrap());
}

#[test]
fn claim_circuit_is_satisfied_by_honest_witness() {
    let (parameters, mut accumulator) = test_setup(24);
    let key = Fp::from_u64(71);
    let value = Fp::from_u64(72);
    let mint = Mint::new(&parameters, key, value);
    accumulator.insert(Fp::from_u64(1)).unwrap();
    accumulator.insert(mint.utxo).unwrap();
    accumulator.insert(Fp::from_u64(2)).unwrap();
    let claim = Claim::new(&parameters, &accumulator, key, value).unwrap();
    let circuit = claim_circuit(&parameters, &claim);
    assert!(circuit.handle.cs.is_satisfied().unwrap());
    // A wrong root leaves the membership constraint unsatisfied.
    let mut tampered = claim.clone();
    tampered.root = Fp::add(&tampered.root, &Fp::from_u64(1));
    let circuit = claim_circuit(&parameters, &tampered);
    assert!(!circuit.handle.cs.is_satisfied().unwrap());
}

#[test]
fn witness_allocation_shapes_match() {
    // The unknown-witness path of each relation produces a circuit of the
    // same shape as the known-witness path.
    let (parameters, mut accumulator) = test_setup(25);
    let key = Fp::from_u64(81);
    let value = Fp::from_u64(82);
    let mint = Mint::new(&parameters, key, value);
    let mut known = Circuit::for_prove();
    MintVar::new_known(&mint, &mut known).assert_valid(&parameters, &mut known).unwrap();
    let mut unknown = Circuit::for_compile();
    MintVar::new_unknown(&mut unknown).assert_valid(&parameters, &mut unknown).unwrap();
    assert_eq!(known.handle.cs.num_constraints(), unknown.handle.cs.num_constraints());
    assert_eq!(
        known.handle.cs.num_instance_variables(),
        unknown.handle.cs.num_instance_variables()
    );

    accumulator.insert(mint.utxo).unwrap();
    let claim = Claim::new(&parameters, &accumulator, key, value).unwrap();
    let mut known = Circuit::for_prove();
    ClaimVar::new_known(&claim, &mut known).assert_valid(&parameters, &mut known).unwrap();
    let mut unknown = Circuit::for_compile();
    ClaimVar::new_unknown(&mut unknown).assert_valid(&parameters, &mut unknown).unwrap();
    assert_eq!(known.handle.cs.num_constraints(), unknown.handle.cs.num_constraints());
    assert_eq!(
        known.handle.cs.num_instance_variables(),
        unknown.handle.cs.num_instance_variables()
    );
}

#[test]
fn setup_generation_is_deterministic() {
    // Every party derives the same parameters and relation shapes from
    // the fixed seed.
    let (params_a, mint_a, claim_a, _) = generate();
    let (params_b, mint_b, claim_b, _) = generate();
    assert_eq!(params_a, params_b);
    assert_eq!(
        mint_a.handle.cs.num_constraints(),
        mint_b.handle.cs.num_constraints()
    );
    assert_eq!(
        claim_a.handle.cs.num_constraints(),
        claim_b.handle.cs.num_constraints()
    );
}
