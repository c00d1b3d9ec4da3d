//! The Poseidon hash: parameter validation, determinism, and the
//! equivalence of the native and circuit execution modes.

use tornado::arkworks::{Circuit, R1CS};
use tornado::compiler::{Mode, Native, NativeCompiler};
use tornado::field::Fp;
use tornado::poseidon::Hasher;
use tornado::rand::{rng_from_seed, sample_hasher};

fn test_hasher(seed: u8) -> Hasher {
    let mut rng = rng_from_seed([seed; 32]);
    sample_hasher(2, 8, 55, 5, &mut rng)
}

fn native_hash(h: &Hasher, a: Fp, b: Fp) -> Fp {
    let mut compiler = NativeCompiler;
    h.hash::<Native>(&mut compiler, &vec![a, b])
}

#[test]
fn hasher_construction_validates_sizes() {
    let h = test_hasher(1);
    // 63 rounds of width 3: 189 keys and a 3x3 matrix.
    assert_eq!(h.round_keys.len(), 189);
    assert_eq!(h.mds_matrix.len(), 9);
    assert_eq!(h.rounds(), 63);
    assert_eq!(h.width(), 3);
    let short_keys: Vec<Fp> = h.round_keys[..188].to_vec();
    assert!(Hasher::new(2, 8, 55, 5, short_keys, h.mds_matrix.clone()).is_none());
    let short_mds: Vec<Fp> = h.mds_matrix[..8].to_vec();
    assert!(Hasher::new(2, 8, 55, 5, h.round_keys.clone(), short_mds).is_none());
    assert!(Hasher::new(2, 8, 55, 5, h.round_keys.clone(), h.mds_matrix.clone()).is_some());
}

#[test]
fn domain_tag_separates_arities() {
    // The tag of arity a is 2^a - 1.
    assert_eq!(tornado::poseidon::domain_tag(2), Fp::from_u64(3));
    assert_eq!(tornado::poseidon::domain_tag(3), Fp::from_u64(7));
    assert_eq!(tornado::poseidon::domain_tag(16), Fp::from_u64(65535));
    assert_eq!(tornado::poseidon::domain_tag(63), Fp::from_u64(0x7fff_ffff_ffff_ffff));
}

#[test]
fn hash_is_deterministic_and_input_sensitive() {
    let h = test_hasher(2);
    let a = Fp::from_u64(11);
    let b = Fp::from_u64(22);
    assert_eq!(native_hash(&h, a, b), native_hash(&h, a, b));
    assert_ne!(native_hash(&h, a, b), native_hash(&h, b, a));
    assert_ne!(native_hash(&h, a, b), native_hash(&h, a, a));
}

#[test]
fn hash_native_equals_circuit() {
    // The core soundness requirement: the circuit path re-derives the
    // native hash exactly, for sampled input pairs, inside a satisfied
    // constraint system.
    let h = test_hasher(3);
    let pairs: [(u64, u64); 4] = [(0, 0), (1, 2), (77, 77), (u64::MAX, 12345)];
    for (x, y) in pairs {
        let a = Fp::from_u64(x);
        let b = Fp::from_u64(y);
        let native = native_hash(&h, a, b);
        let mut circuit = Circuit::for_prove();
        let wa = circuit.allocate_known(&a, Mode::Secret);
        let wb = circuit.allocate_known(&b, Mode::Secret);
        let out = h.hash::<R1CS>(&mut circuit, &vec![wa, wb]);
        assert_eq!(out.value, Some(native));
        assert!(circuit.handle.cs.is_satisfied().unwrap());
    }
}

#[test]
fn unknown_allocation_builds_same_shape() {
    // Key-generation determinism of shape: the unknown-witness path
    // produces the same number of constraints and variables as the known
    // path.
    let h = test_hasher(4);
    let mut known = Circuit::for_prove();
    let ka = known.allocate_known(&Fp::from_u64(5), Mode::Secret);
    let kb = known.allocate_known(&Fp::from_u64(6), Mode::Secret);
    let _ = h.hash::<R1CS>(&mut known, &vec![ka, kb]);
    let mut unknown = Circuit::for_compile();
    let ua = unknown.allocate_unknown(Mode::Secret);
    let ub = unknown.allocate_unknown(Mode::Secret);
    let _ = h.hash::<R1CS>(&mut unknown, &vec![ua, ub]);
    assert_eq!(
        known.handle.cs.num_constraints(),
        unknown.handle.cs.num_constraints()
    );
    assert_eq!(known.handle.cs.num_witness_variables(), unknown.handle.cs.num_witness_variables());
    assert_eq!(known.handle.cs.num_instance_variables(), unknown.handle.cs.num_instance_variables());
}
