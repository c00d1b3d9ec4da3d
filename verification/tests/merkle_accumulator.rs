//! The append-only accumulator: membership round trips, path lengths, and
//! the path verifier.

use tornado::field::Fp;
use tornado::merkle_tree::{Accumulator, verify_path, HEIGHT};
use tornado::rand::{rng_from_seed, sample_hasher};

fn test_accumulator(seed: u8) -> Accumulator {
    let mut rng = rng_from_seed([seed; 32]);
    Accumulator::new(sample_hasher(2, 8, 55, 5, &mut rng))
}

#[test]
fn merkle_round_trip() {
    // Insert distinct leaf digests; every inserted leaf gets a path that
    // verifies against the returned root, and a digest never inserted is
    // not found.
    let mut acc = test_accumulator(10);
    let leaves: Vec<Fp> = (1u64..=5).map(Fp::from_u64).collect();
    for leaf in &leaves {
        acc.insert(*leaf).expect("far below capacity");
    }
    for leaf in &leaves {
        let (root, path) = acc.membership_proof(leaf).expect("inserted leaf is found");
        assert!(verify_path(&acc.parameters, &path, &root, leaf));
        assert_eq!(root, acc.root());
    }
    assert!(acc.membership_proof(&Fp::from_u64(99)).is_none());
}

#[test]
fn path_length_is_the_tree_height() {
    // Every returned membership path has exactly 20 sibling entries,
    // regardless of the fill level.
    let mut acc = test_accumulator(11);
    for i in 1u64..=7 {
        acc.insert(Fp::from_u64(i)).unwrap();
        let (_, path) = acc.membership_proof(&Fp::from_u64(i)).unwrap();
        assert_eq!(path.len(), HEIGHT);
        assert_eq!(path.siblings.len(), 20);
    }
}

#[test]
fn root_is_a_function_of_the_leaves() {
    let mut left = test_accumulator(12);
    let mut right = test_accumulator(12);
    let empty_root = left.root();
    for i in 3u64..9 {
        left.insert(Fp::from_u64(i)).unwrap();
        right.insert(Fp::from_u64(i)).unwrap();
        assert_eq!(left.root(), right.root());
        assert_ne!(left.root(), empty_root);
    }
    // Insertion order matters: the root anchors the sequence of leaves.
    let mut swapped = test_accumulator(12);
    swapped.insert(Fp::from_u64(4)).unwrap();
    swapped.insert(Fp::from_u64(3)).unwrap();
    let mut plain = test_accumulator(12);
    plain.insert(Fp::from_u64(3)).unwrap();
    plain.insert(Fp::from_u64(4)).unwrap();
    assert_ne!(swapped.root(), plain.root());
}

#[test]
fn tampered_path_or_root_fails_verification() {
    let mut acc = test_accumulator(13);
    acc.insert(Fp::from_u64(42)).unwrap();
    acc.insert(Fp::from_u64(43)).unwrap();
    let leaf = Fp::from_u64(42);
    let (root, path) = acc.membership_proof(&leaf).unwrap();
    assert!(verify_path(&acc.parameters, &path, &root, &leaf));
    // Wrong leaf.
    assert!(!verify_path(&acc.parameters, &path, &root, &Fp::from_u64(43)));
    // Wrong root.
    let bad_root = Fp::from_u64(7);
    assert!(!verify_path(&acc.parameters, &path, &bad_root, &leaf));
    // Wrong position.
    let mut moved = path.clone();
    moved.leaf_index = path.leaf_index ^ 1;
    assert!(!verify_path(&acc.parameters, &moved, &root, &leaf));
}
