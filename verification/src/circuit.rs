//! Protocol relations: Mint (commit a value under a key) and Claim (prove
//! membership of a previously minted commitment and derive its one-time
//! nullifier).
//!
//! Each relation exists in a native form, whose assertions are decided on
//! concrete values, and a circuit form over witness wires, whose
//! assertions become constraints; the two derive the same field values by
//! the contracts of the shared dual-mode code.

use vstd::prelude::*;
use crate::field::Fp;
use crate::compiler::{Mode, Native, NativeCompiler, RelationViolation};
use crate::compiler::Specification;
use crate::merkle_tree::{Accumulator, Path, fold_path_f};
use crate::arkworks::{Circuit, PathVar, R1CS, ScalarVar};
use crate::config::{Parameters, utxo_f, void_number_f};

verus! {

/// A Mint witness: the commitment is derived from key and value, never
/// chosen independently.
#[derive(Clone, Copy, Debug)]
pub struct Mint {
    pub key: Fp,
    pub value: Fp,
    pub utxo: Fp,
}

impl Mint {
    /// All three elements are reduced.
    pub open spec fn wf(&self) -> bool {
        self.key.wf() && self.value.wf() && self.utxo.wf()
    }

    /// The commitment field holds exactly the hash of key and value.
    pub open spec fn valid(&self, parameters: Parameters) -> bool {
        self.utxo@ == utxo_f(parameters, self.key@, self.value@)
    }

    /// Builds a Mint witness, deriving the commitment.
    pub fn new(parameters: &Parameters, key: Fp, value: Fp) -> (r: Mint)
        requires
            parameters.wf(),
            key.wf(),
            value.wf(),
        ensures
            r.wf(),
            r.key == key,
            r.value == value,
            r.valid(*parameters),
    {
        let mut compiler = NativeCompiler;
        let utxo = parameters.utxo::<Native>(&key, &value, &mut compiler);
        Mint { key, value, utxo }
    }

    /// Checks the relation on the concrete values: accepted exactly when
    /// the commitment equals the hash of key and value.
    pub fn assert_valid(&self, parameters: &Parameters, compiler: &mut NativeCompiler) -> (r:
        Result<(), RelationViolation>)
        requires
            parameters.wf(),
            self.wf(),
        ensures
            r is Ok <==> self.valid(*parameters),
    {
        let derived = parameters.utxo::<Native>(&self.key, &self.value, compiler);
        parameters.assert_eq::<Native>(&self.utxo, &derived, compiler)
    }
}

/// The Mint witness over circuit wires: secret key, public value and
/// commitment.
pub struct MintVar {
    pub key: ScalarVar,
    pub value: ScalarVar,
    pub utxo: ScalarVar,
}

impl MintVar {
    /// Any bound value is reduced.
    pub open spec fn wf(&self) -> bool {
        R1CS::fwf(&self.key) && R1CS::fwf(&self.value) && R1CS::fwf(&self.utxo)
    }

    /// Every wire was allocated under a system of the given mode and,
    /// under a proving-mode system, is bound.
    pub open spec fn in_mode(&self, cm: bool) -> bool {
        &&& self.key.sys@ == cm
        &&& self.value.sys@ == cm
        &&& self.utxo.sys@ == cm
        &&& !cm ==> self.key.value is Some && self.value.value is Some && self.utxo.value is Some
    }

    /// Allocates the witness with known values for proving.
    pub fn new_known(this: &Mint, compiler: &mut Circuit) -> (r: MintVar)
        requires
            this.wf(),
        ensures
            r.wf(),
            R1CS::fval(&r.key) == Some(this.key@),
            R1CS::fval(&r.value) == Some(this.value@),
            R1CS::fval(&r.utxo) == Some(this.utxo@),
            r.in_mode(old(compiler).setup@),
            final(compiler).setup == old(compiler).setup,
    {
        let key = compiler.allocate_known(&this.key, Mode::Secret);
        let value = compiler.allocate_known(&this.value, Mode::Public);
        let utxo = compiler.allocate_known(&this.utxo, Mode::Public);
        MintVar { key, value, utxo }
    }

    /// Allocates the witness shape only, for key generation: the same
    /// count and kinds of allocations as the known path, with no values.
    /// The system must be in setup mode, where unbound allocations are
    /// permitted.
    pub fn new_unknown(compiler: &mut Circuit) -> (r: MintVar)
        requires
            old(compiler).setup@,
        ensures
            r.wf(),
            R1CS::fval(&r.key) is None,
            R1CS::fval(&r.value) is None,
            R1CS::fval(&r.utxo) is None,
            r.in_mode(old(compiler).setup@),
            final(compiler).setup == old(compiler).setup,
    {
        let key = compiler.allocate_unknown(Mode::Secret);
        let value = compiler.allocate_unknown(Mode::Public);
        let utxo = compiler.allocate_unknown(Mode::Public);
        MintVar { key, value, utxo }
    }

    /// Emits the relation's constraints: the commitment wire equals the
    /// hash of the key and value wires.  The check itself happens at
    /// proving time.
    pub fn assert_valid(&self, parameters: &Parameters, compiler: &mut Circuit) -> (r: Result<
        (),
        RelationViolation,
    >)
        requires
            parameters.wf(),
            self.wf(),
            self.in_mode(old(compiler).setup@),
        ensures
            r is Ok,
            final(compiler).setup == old(compiler).setup,
    {
        let derived = parameters.utxo::<R1CS>(&self.key, &self.value, compiler);
        parameters.assert_eq::<R1CS>(&self.utxo, &derived, compiler)
    }
}

/// A Claim witness: the commitment is re-derived from key and value, the
/// membership path anchors it under the root, and the nullifier is
/// derived from the key and the commitment.
#[derive(Clone, Debug)]
pub struct Claim {
    pub key: Fp,
    pub value: Fp,
    pub root: Fp,
    pub membership_proof: Path,
    pub void_number: Fp,
}

impl Claim {
    /// All elements reduced and the path of the fixed height.
    pub open spec fn wf(&self) -> bool {
        &&& self.key.wf()
        &&& self.value.wf()
        &&& self.root.wf()
        &&& self.void_number.wf()
        &&& self.membership_proof.wf()
    }

    /// The full relation on values: the membership path folds the derived
    /// commitment back to the root, and the nullifier is the hash of the
    /// key and that commitment.
    pub open spec fn valid(&self, parameters: Parameters) -> bool {
        let utxo = utxo_f(parameters, self.key@, self.value@);
        &&& fold_path_f(
            parameters.merkle_tree_parameters,
            utxo,
            self.membership_proof.leaf_index as int,
            self.membership_proof.sib_vals(),
        ) == self.root@
        &&& self.void_number@ == void_number_f(parameters, self.key@, utxo)
    }

    /// Builds a Claim witness from the accumulator: derives the
    /// commitment, looks its membership up, and derives the nullifier.
    /// Returns nothing when the commitment was never inserted — the
    /// expected, recoverable "no such membership" outcome.
    pub fn new(parameters: &Parameters, accumulator: &Accumulator, key: Fp, value: Fp) -> (r:
        Option<Claim>)
        requires
            parameters.wf(),
            accumulator.wf(),
            accumulator.parameters == parameters.merkle_tree_parameters,
            key.wf(),
            value.wf(),
        ensures
            r is Some <==> accumulator.leaf_vals().contains(
                utxo_f(*parameters, key@, value@),
            ),
            r matches Some(c) ==> {
                &&& c.wf()
                &&& c.key == key
                &&& c.value == value
                &&& c.root@ == accumulator.root_val()
                &&& c.valid(*parameters)
            },
    {
        let mut compiler = NativeCompiler;
        let utxo = parameters.utxo::<Native>(&key, &value, &mut compiler);
        match accumulator.membership_proof(&utxo) {
            Some((root, membership_proof)) => {
                let void_number = parameters.void_number::<Native>(&key, &utxo, &mut compiler);
                Some(Claim { key, value, root, membership_proof, void_number })
            },
            None => None,
        }
    }

    /// Checks the relation on the concrete values.
    pub fn assert_valid(&self, parameters: &Parameters, compiler: &mut NativeCompiler) -> (r:
        Result<(), RelationViolation>)
        requires
            parameters.wf(),
            self.wf(),
        ensures
            r is Ok <==> self.valid(*parameters),
    {
        let utxo = parameters.utxo::<Native>(&self.key, &self.value, compiler);
        if let Err(e) = parameters.assert_membership(&utxo, &self.root, &self.membership_proof,
            compiler) {
            return Err(e);
        }
        let derived = parameters.void_number::<Native>(&self.key, &utxo, compiler);
        parameters.assert_eq::<Native>(&self.void_number, &derived, compiler)
    }
}

/// The Claim witness over circuit wires: secret key and path, public
/// value, root and nullifier.
pub struct ClaimVar {
    pub key: ScalarVar,
    pub value: ScalarVar,
    pub root: ScalarVar,
    pub membership_proof: PathVar,
    pub void_number: ScalarVar,
}

impl ClaimVar {
    /// Any bound value is reduced and the path wires have the fixed
    /// height.
    pub open spec fn wf(&self) -> bool {
        &&& R1CS::fwf(&self.key)
        &&& R1CS::fwf(&self.value)
        &&& R1CS::fwf(&self.root)
        &&& R1CS::fwf(&self.void_number)
        &&& self.membership_proof.wf()
    }

    /// Every wire was allocated under a system of the given mode and,
    /// under a proving-mode system, is bound.
    pub open spec fn in_mode(&self, cm: bool) -> bool {
        &&& self.key.sys@ == cm
        &&& self.value.sys@ == cm
        &&& self.root.sys@ == cm
        &&& self.void_number.sys@ == cm
        &&& self.membership_proof.in_mode(cm)
        &&& !cm ==> self.key.value is Some && self.value.value is Some && self.root.value is Some
            && self.void_number.value is Some
    }

    /// Allocates the witness with known values for proving: every wire,
    /// the path's direction booleans and sibling digests included, is
    /// bound to the witness's value.
    pub fn new_known(this: &Claim, compiler: &mut Circuit) -> (r: ClaimVar)
        requires
            this.wf(),
        ensures
            r.wf(),
            R1CS::fval(&r.key) == Some(this.key@),
            R1CS::fval(&r.value) == Some(this.value@),
            R1CS::fval(&r.root) == Some(this.root@),
            R1CS::fval(&r.void_number) == Some(this.void_number@),
            r.membership_proof.bound_to(this.membership_proof),
            r.in_mode(old(compiler).setup@),
            final(compiler).setup == old(compiler).setup,
    {
        let key = compiler.allocate_known(&this.key, Mode::Secret);
        let value = compiler.allocate_known(&this.value, Mode::Public);
        let root = compiler.allocate_known(&this.root, Mode::Public);
        let membership_proof = PathVar::new_known(&this.membership_proof, compiler);
        let void_number = compiler.allocate_known(&this.void_number, Mode::Public);
        ClaimVar { key, value, root, membership_proof, void_number }
    }

    /// Allocates the witness shape only, for key generation.  The system
    /// must be in setup mode, where unbound allocations are permitted.
    pub fn new_unknown(compiler: &mut Circuit) -> (r: ClaimVar)
        requires
            old(compiler).setup@,
        ensures
            r.wf(),
            R1CS::fval(&r.key) is None,
            R1CS::fval(&r.value) is None,
            R1CS::fval(&r.root) is None,
            R1CS::fval(&r.void_number) is None,
            r.in_mode(old(compiler).setup@),
            final(compiler).setup == old(compiler).setup,
    {
        let key = compiler.allocate_unknown(Mode::Secret);
        let value = compiler.allocate_unknown(Mode::Public);
        let root = compiler.allocate_unknown(Mode::Public);
        let membership_proof = PathVar::new_unknown(compiler);
        let void_number = compiler.allocate_unknown(Mode::Public);
        ClaimVar { key, value, root, membership_proof, void_number }
    }

    /// Emits the relation's constraints: the derived commitment wire is a
    /// member under the root wire, and the nullifier wire equals the hash
    /// of the key wire and the commitment wire.
    pub fn assert_valid(&self, parameters: &Parameters, compiler: &mut Circuit) -> (r: Result<
        (),
        RelationViolation,
    >)
        requires
            parameters.wf(),
            self.wf(),
            self.in_mode(old(compiler).setup@),
        ensures
            r is Ok,
            final(compiler).setup == old(compiler).setup,
    {
        let utxo = parameters.utxo::<R1CS>(&self.key, &self.value, compiler);
        if let Err(e) = parameters.assert_membership_var(&utxo, &self.root,
            &self.membership_proof, compiler) {
            return Err(e);
        }
        let derived = parameters.void_number::<R1CS>(&self.key, &utxo, compiler);
        parameters.assert_eq::<R1CS>(&self.void_number, &derived, compiler)
    }
}

/// What a completed mint hands out: the public commitment and the proof.
pub struct MintPost {
    pub utxo: Fp,
    pub proof: crate::proofsystem::Proof,
}

/// What a completed claim hands out: the public root and nullifier and
/// the proof.
pub struct ClaimPost {
    pub root: Fp,
    pub void_number: Fp,
    pub proof: crate::proofsystem::Proof,
}

/// The compiled Mint relation with unknown witnesses: the constraint
/// system handed to the proof system's key generation.
pub fn mint_keys_circuit(parameters: &Parameters) -> (r: Circuit)
    requires
        parameters.wf(),
    ensures
        r.setup@,
{
    let mut compiler = Circuit::for_compile();
    let witness = MintVar::new_unknown(&mut compiler);
    let outcome = witness.assert_valid(parameters, &mut compiler);
    proof {
        assert(outcome is Ok);
    }
    compiler
}

/// The Mint relation instantiated with a known witness: the constraint
/// system handed to the proof system's prover.
pub fn mint_circuit(parameters: &Parameters, mint: &Mint) -> (r: Circuit)
    requires
        parameters.wf(),
        mint.wf(),
    ensures
        !r.setup@,
{
    let mut compiler = Circuit::for_prove();
    let witness = MintVar::new_known(mint, &mut compiler);
    let outcome = witness.assert_valid(parameters, &mut compiler);
    proof {
        assert(outcome is Ok);
    }
    compiler
}

/// The compiled Claim relation with unknown witnesses.
pub fn claim_keys_circuit(parameters: &Parameters) -> (r: Circuit)
    requires
        parameters.wf(),
    ensures
        r.setup@,
{
    let mut compiler = Circuit::for_compile();
    let witness = ClaimVar::new_unknown(&mut compiler);
    let outcome = witness.assert_valid(parameters, &mut compiler);
    proof {
        assert(outcome is Ok);
    }
    compiler
}

/// The Claim relation instantiated with a known witness.
pub fn claim_circuit(parameters: &Parameters, claim: &Claim) -> (r: Circuit)
    requires
        parameters.wf(),
        claim.wf(),
    ensures
        !r.setup@,
{
    let mut compiler = Circuit::for_prove();
    let witness = ClaimVar::new_known(claim, &mut compiler);
    let outcome = witness.assert_valid(parameters, &mut compiler);
    proof {
        assert(outcome is Ok);
    }
    compiler
}

/// The Mint proof's public inputs, in the order fixed by the relation:
/// the value, then the commitment.
pub fn mint_public_inputs(value: &Fp, utxo: &Fp) -> (r: Vec<Fp>)
    ensures
        r@ =~= seq![*value, *utxo],
{
    let mut out: Vec<Fp> = Vec::new();
    out.push(*value);
    out.push(*utxo);
    out
}

/// The Claim proof's public inputs, in the order fixed by the relation:
/// the value, then the root, then the nullifier.
pub fn claim_public_inputs(value: &Fp, root: &Fp, void_number: &Fp) -> (r: Vec<Fp>)
    ensures
        r@ =~= seq![*value, *root, *void_number],
{
    let mut out: Vec<Fp> = Vec::new();
    out.push(*value);
    out.push(*root);
    out.push(*void_number);
    out
}

} // verus!
