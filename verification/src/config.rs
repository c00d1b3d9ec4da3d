//! Configuration: binds the Poseidon instances and the Merkle parameters
//! into the relations' native and circuit forms.

use vstd::prelude::*;
use crate::field::Fp;
use crate::compiler::{Native, NativeCompiler, RelationViolation, Specification, optv};
use crate::poseidon::{Hasher, all_bound, all_in, seq_vals};
use crate::merkle_tree::{Path, fold_path_f, join_f};
use crate::arkworks::{Circuit, PathVar, R1CS, ScalarVar};

verus! {

/// Height of the Merkle accumulator, shared by every path, proof and
/// circuit instance.
pub const MERKLE_TREE_HEIGHT: usize = 20;

/// Number of full Poseidon rounds of the configured instance.
pub const FULL_ROUNDS: usize = 8;

/// Number of partial Poseidon rounds of the configured instance.
pub const PARTIAL_ROUNDS: usize = 55;

/// S-box exponent of the configured instance.
pub const SBOX_EXPONENT: u64 = 5;

/// The Poseidon instance used throughout: arity two over the BLS12-381
/// scalar field, with the round counts above.
pub struct PoseidonSpec;

impl PoseidonSpec {
    /// Input count of the hash.
    pub fn arity() -> (r: usize)
        ensures
            r == 2,
    {
        2
    }

    /// Samples a parameter set of this shape: the next 189 round keys and
    /// 9 matrix entries of the generator's draw sequence.
    pub fn sample(rng: &mut crate::rand::SeededRng) -> (r: Hasher)
        ensures
            hasher_sampled(r, old(rng).seed@, old(rng).drawn@),
            final(rng).seed == old(rng).seed,
            final(rng).drawn@ == old(rng).drawn@ + 198,
    {
        crate::rand::sample_hasher(2, FULL_ROUNDS, PARTIAL_ROUNDS, SBOX_EXPONENT, rng)
    }
}

/// The configured instance, with its round keys and matrix taken from the
/// given position of a seed's draw sequence.
pub open spec fn hasher_sampled(h: Hasher, seed: Seq<u8>, start: nat) -> bool {
    &&& h.wf()
    &&& h.arity == 2
    &&& h.full_rounds == FULL_ROUNDS
    &&& h.partial_rounds == PARTIAL_ROUNDS
    &&& h.sbox_exponent == SBOX_EXPONENT
    &&& crate::field::fp_vals(h.round_keys@) == crate::rand::drawn_vals(seed, start, 189)
    &&& crate::field::fp_vals(h.mds_matrix@) == crate::rand::drawn_vals(seed, start + 189, 9)
}

/// The whole parameter set, sampled in its fixed order from the given
/// position of a seed's draw sequence.
pub open spec fn sampled_from(p: Parameters, seed: Seq<u8>, start: nat) -> bool {
    &&& hasher_sampled(p.utxo_hash, seed, start)
    &&& hasher_sampled(p.void_number_hash, seed, start + 198)
    &&& hasher_sampled(p.merkle_tree_parameters, seed, start + 396)
}

/// A parameter set is the configured shape: arity two and valid sizes.
pub open spec fn hasher_ok(h: Hasher) -> bool {
    h.wf() && h.arity == 2
}

/// The inner-node hash of the Merkle tree, natively: a Poseidon join of
/// the two child digests.
pub struct MerkleTreeInnerHash;

impl MerkleTreeInnerHash {
    /// Joins two inner-node digests.
    pub fn join(parameters: &Hasher, lhs: &Fp, rhs: &Fp, compiler: &mut NativeCompiler) -> (r: Fp)
        requires
            hasher_ok(*parameters),
            lhs.wf(),
            rhs.wf(),
        ensures
            r.wf(),
            r@ == join_f(*parameters, lhs@, rhs@),
    {
        crate::merkle_tree::join(parameters, lhs, rhs)
    }

    /// Joins two leaf digests; the leaf hash is the identity, so this is
    /// the same Poseidon join.
    pub fn join_leaves(parameters: &Hasher, lhs: &Fp, rhs: &Fp, compiler: &mut NativeCompiler) -> (r:
        Fp)
        requires
            hasher_ok(*parameters),
            lhs.wf(),
            rhs.wf(),
        ensures
            r.wf(),
            r@ == join_f(*parameters, lhs@, rhs@),
    {
        crate::merkle_tree::join(parameters, lhs, rhs)
    }
}

/// The inner-node hash of the Merkle tree over circuit wires.
pub struct MerkleTreeInnerHashVar;

impl MerkleTreeInnerHashVar {
    /// Joins two inner-node digest wires.
    pub fn join(parameters: &Hasher, lhs: &ScalarVar, rhs: &ScalarVar, compiler: &mut Circuit) -> (r:
        ScalarVar)
        requires
            hasher_ok(*parameters),
            R1CS::fwf(lhs),
            R1CS::fwf(rhs),
            lhs.sys@ == old(compiler).setup@,
            rhs.sys@ == old(compiler).setup@,
            !old(compiler).setup@ ==> R1CS::fval(lhs) is Some && R1CS::fval(rhs) is Some,
        ensures
            R1CS::fwf(&r),
            R1CS::fval(lhs) is Some && R1CS::fval(rhs) is Some ==> R1CS::fval(&r) == Some(
                join_f(*parameters, optv(R1CS::fval(lhs)), optv(R1CS::fval(rhs))),
            ),
            final(compiler).setup == old(compiler).setup,
    {
        let a = R1CS::dup(compiler, lhs);
        let b = R1CS::dup(compiler, rhs);
        let mut input: Vec<ScalarVar> = Vec::new();
        input.push(a);
        input.push(b);
        proof {
            if R1CS::fval(lhs) is Some && R1CS::fval(rhs) is Some {
                assert(all_bound::<R1CS>(input@));
                assert(seq_vals::<R1CS>(input@) =~= seq![
                    optv(R1CS::fval(lhs)),
                    optv(R1CS::fval(rhs)),
                ]);
            }
            assert(all_in::<R1CS>(R1CS::cmode(compiler), input@));
        }
        parameters.hash::<R1CS>(compiler, &input)
    }

    /// Joins two leaf digest wires; the leaf hash is the identity.
    pub fn join_leaves(
        parameters: &Hasher,
        lhs: &ScalarVar,
        rhs: &ScalarVar,
        compiler: &mut Circuit,
    ) -> (r: ScalarVar)
        requires
            hasher_ok(*parameters),
            R1CS::fwf(lhs),
            R1CS::fwf(rhs),
            lhs.sys@ == old(compiler).setup@,
            rhs.sys@ == old(compiler).setup@,
            !old(compiler).setup@ ==> R1CS::fval(lhs) is Some && R1CS::fval(rhs) is Some,
        ensures
            R1CS::fwf(&r),
            R1CS::fval(lhs) is Some && R1CS::fval(rhs) is Some ==> R1CS::fval(&r) == Some(
                join_f(*parameters, optv(R1CS::fval(lhs)), optv(R1CS::fval(rhs))),
            ),
            final(compiler).setup == old(compiler).setup,
    {
        Self::join(parameters, lhs, rhs, compiler)
    }
}

/// Fixed facts of the Merkle tree configuration.
pub struct MerkleTreeConfiguration;

impl MerkleTreeConfiguration {
    /// Height shared by every tree, path and circuit instance.
    pub fn height() -> (r: usize)
        ensures
            r == crate::merkle_tree::HEIGHT,
    {
        MERKLE_TREE_HEIGHT
    }
}

/// The immutable protocol parameters: one Poseidon instance for the
/// commitment, one for the nullifier, one for the Merkle inner nodes.
#[derive(Clone, Debug, PartialEq, Eq)]
pub struct Parameters {
    pub utxo_hash: Hasher,
    pub void_number_hash: Hasher,
    pub merkle_tree_parameters: Hasher,
}

/// The commitment of a key and a value.
pub open spec fn utxo_f(p: Parameters, key: nat, value: nat) -> nat {
    p.utxo_hash.hash_f(seq![key, value])
}

/// The nullifier of a key and a commitment.
pub open spec fn void_number_f(p: Parameters, key: nat, utxo: nat) -> nat {
    p.void_number_hash.hash_f(seq![key, utxo])
}

impl Parameters {
    /// All three instances are valid arity-two parameter sets.
    pub open spec fn wf(&self) -> bool {
        hasher_ok(self.utxo_hash) && hasher_ok(self.void_number_hash) && hasher_ok(
            self.merkle_tree_parameters,
        )
    }

    /// Samples a fresh parameter set: the commitment, nullifier and
    /// Merkle instances take, in that order, the next three runs of the
    /// generator's draw sequence, so the result is a function of the seed
    /// and position alone.
    pub fn sample(rng: &mut crate::rand::SeededRng) -> (r: Parameters)
        ensures
            r.wf(),
            sampled_from(r, old(rng).seed@, old(rng).drawn@),
            final(rng).seed == old(rng).seed,
            final(rng).drawn@ == old(rng).drawn@ + 594,
    {
        let utxo_hash = PoseidonSpec::sample(rng);
        let void_number_hash = PoseidonSpec::sample(rng);
        let merkle_tree_parameters = PoseidonSpec::sample(rng);
        Parameters { utxo_hash, void_number_hash, merkle_tree_parameters }
    }

    /// The commitment of `key` and `value`, in either mode.
    pub fn utxo<S: Specification>(
        &self,
        key: &S::Field,
        value: &S::Field,
        compiler: &mut S::Compiler,
    ) -> (r: S::Field)
        requires
            self.wf(),
            S::fwf(key),
            S::fwf(value),
            S::fmode(key) == S::cmode(old(compiler)),
            S::fmode(value) == S::cmode(old(compiler)),
            !S::cmode(old(compiler)) ==> S::fval(key) is Some && S::fval(value) is Some,
        ensures
            S::fwf(&r),
            S::fval(key) is Some && S::fval(value) is Some ==> S::fval(&r) == Some(
                utxo_f(*self, optv(S::fval(key)), optv(S::fval(value))),
            ),
            S::cmode(final(compiler)) == S::cmode(old(compiler)),
            S::fmode(&r) == S::cmode(old(compiler)),
            !S::cmode(old(compiler)) ==> S::fval(&r) is Some,
    {
        let a = S::dup(compiler, key);
        let b = S::dup(compiler, value);
        let mut input: Vec<S::Field> = Vec::new();
        input.push(a);
        input.push(b);
        proof {
            if S::fval(key) is Some && S::fval(value) is Some {
                assert(all_bound::<S>(input@));
                assert(seq_vals::<S>(input@) =~= seq![optv(S::fval(key)), optv(S::fval(value))]);
            }
            assert(all_in::<S>(S::cmode(compiler), input@));
        }
        self.utxo_hash.hash::<S>(compiler, &input)
    }

    /// The nullifier of `key` and `utxo`, in either mode.
    pub fn void_number<S: Specification>(
        &self,
        key: &S::Field,
        utxo: &S::Field,
        compiler: &mut S::Compiler,
    ) -> (r: S::Field)
        requires
            self.wf(),
            S::fwf(key),
            S::fwf(utxo),
            S::fmode(key) == S::cmode(old(compiler)),
            S::fmode(utxo) == S::cmode(old(compiler)),
            !S::cmode(old(compiler)) ==> S::fval(key) is Some && S::fval(utxo) is Some,
        ensures
            S::fwf(&r),
            S::fval(key) is Some && S::fval(utxo) is Some ==> S::fval(&r) == Some(
                void_number_f(*self, optv(S::fval(key)), optv(S::fval(utxo))),
            ),
            S::cmode(final(compiler)) == S::cmode(old(compiler)),
            S::fmode(&r) == S::cmode(old(compiler)),
            !S::cmode(old(compiler)) ==> S::fval(&r) is Some,
    {
        let a = S::dup(compiler, key);
        let b = S::dup(compiler, utxo);
        let mut input: Vec<S::Field> = Vec::new();
        input.push(a);
        input.push(b);
        proof {
            if S::fval(key) is Some && S::fval(utxo) is Some {
                assert(all_bound::<S>(input@));
                assert(seq_vals::<S>(input@) =~= seq![optv(S::fval(key)), optv(S::fval(utxo))]);
            }
            assert(all_in::<S>(S::cmode(compiler), input@));
        }
        self.void_number_hash.hash::<S>(compiler, &input)
    }

    /// Asserts that two elements are equal, in either mode.
    pub fn assert_eq<S: Specification>(
        &self,
        lhs: &S::Field,
        rhs: &S::Field,
        compiler: &mut S::Compiler,
    ) -> (r: Result<(), RelationViolation>)
        requires
            S::fwf(lhs),
            S::fwf(rhs),
        ensures
            r is Ok <==> S::checked_eq(lhs, rhs),
            S::cmode(final(compiler)) == S::cmode(old(compiler)),
    {
        S::assert_eq(compiler, lhs, rhs)
    }

    /// Checks a membership path natively against a claimed root.
    pub fn verify_path(&self, membership_proof: &Path, root: &Fp, leaf: &Fp) -> (r: bool)
        requires
            self.wf(),
            membership_proof.wf(),
            root.wf(),
            leaf.wf(),
        ensures
            r == (fold_path_f(
                self.merkle_tree_parameters,
                leaf@,
                membership_proof.leaf_index as int,
                membership_proof.sib_vals(),
            ) == root@),
    {
        crate::merkle_tree::verify_path(&self.merkle_tree_parameters, membership_proof, root, leaf)
    }

    /// Asserts membership natively: accepted exactly when the path folds
    /// the leaf digest back to the claimed root.
    pub fn assert_membership(
        &self,
        utxo: &Fp,
        root: &Fp,
        membership_proof: &Path,
        compiler: &mut NativeCompiler,
    ) -> (r: Result<(), RelationViolation>)
        requires
            self.wf(),
            membership_proof.wf(),
            utxo.wf(),
            root.wf(),
        ensures
            r is Ok <==> fold_path_f(
                self.merkle_tree_parameters,
                utxo@,
                membership_proof.leaf_index as int,
                membership_proof.sib_vals(),
            ) == root@,
    {
        let ok = self.verify_path(membership_proof, root, utxo);
        Native::assert_true(compiler, &ok)
    }

    /// Asserts membership in the circuit: recomputes the root wire from
    /// the leaf wire and the path wires and constrains it to equal the
    /// claimed root wire; the check itself happens at proving time.
    pub fn assert_membership_var(
        &self,
        utxo: &ScalarVar,
        root: &ScalarVar,
        membership_proof: &PathVar,
        compiler: &mut Circuit,
    ) -> (r: Result<(), RelationViolation>)
        requires
            self.wf(),
            membership_proof.wf(),
            R1CS::fwf(utxo),
            R1CS::fwf(root),
            utxo.sys@ == old(compiler).setup@,
            root.sys@ == old(compiler).setup@,
            membership_proof.in_mode(old(compiler).setup@),
            !old(compiler).setup@ ==> R1CS::fval(utxo) is Some && R1CS::fval(root) is Some,
        ensures
            r is Ok,
            final(compiler).setup == old(compiler).setup,
    {
        let candidate = crate::merkle_tree::root_from_path::<R1CS>(
            &self.merkle_tree_parameters,
            compiler,
            utxo,
            &membership_proof.bits,
            &membership_proof.siblings,
            Ghost(0),
        );
        let is_valid = R1CS::is_eq(compiler, &candidate, root);
        R1CS::assert_true(compiler, &is_valid)
    }
}

} // verus!
