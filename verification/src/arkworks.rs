//! Constraint-system backend: symbolic wires over a rank-1 system.
//!
//! A wire may carry the concrete value it is bound to (a known
//! allocation); in key-generation mode it carries none and only the
//! relation's shape is built.  The value bookkeeping is verified — it is
//! what ties the circuit mode to the native mode — while each individual
//! call into the constraint-system library is a trusted wrapper with no
//! further claims.

use vstd::prelude::*;
use ark_r1cs_std::alloc::AllocVar;
use ark_r1cs_std::eq::EqGadget;
use ark_r1cs_std::fields::FieldVar;
use ark_r1cs_std::select::CondSelectGadget;
use ark_ff::PrimeField as ArkPrimeField;
use crate::field::{Fp, fp_add, fp_mul};
use crate::compiler::{Mode, RelationViolation, Specification};

verus! {

/// A rank-1 constraint system under construction.  Opaque to the verifier;
/// the raw handle stays reachable so that an outside proof system can
/// consume the finished circuit.
#[verifier::external_body]
pub struct CircuitHandle {
    pub cs: ark_relations::r1cs::ConstraintSystemRef<ark_bls12_381::Fr>,
}

/// A field wire of the constraint system.  Opaque to the verifier.
#[verifier::external_body]
pub struct FieldWire {
    pub wire: ark_r1cs_std::fields::fp::FpVar<ark_bls12_381::Fr>,
}

/// A boolean wire of the constraint system.  Opaque to the verifier.
#[verifier::external_body]
pub struct BoolWire {
    pub wire: ark_r1cs_std::bits::boolean::Boolean<ark_bls12_381::Fr>,
}

/// Relies on `ark_relations` `ConstraintSystem::new_ref`, with the
/// optimization goal set to constraint count and the system put in setup
/// mode: allocations record only the relation's shape.
#[verifier::external_body]
fn new_cs_for_compile() -> CircuitHandle {
    let cs = ark_relations::r1cs::ConstraintSystem::new_ref();
    cs.set_optimization_goal(ark_relations::r1cs::OptimizationGoal::Constraints);
    cs.set_mode(ark_relations::r1cs::SynthesisMode::Setup);
    CircuitHandle { cs }
}

/// Relies on `ark_relations` `ConstraintSystem::new_ref`, with the
/// optimization goal set to constraint count, in proving mode.
#[verifier::external_body]
fn new_cs_for_prove() -> CircuitHandle {
    let cs = ark_relations::r1cs::ConstraintSystem::new_ref();
    cs.set_optimization_goal(ark_relations::r1cs::OptimizationGoal::Constraints);
    CircuitHandle { cs }
}

/// Relies on `ark_r1cs_std` `FpVar::new_input`: allocates a public-input
/// wire bound to the given value.
#[verifier::external_body]
fn wire_new_input_known(cs: &CircuitHandle, v: &Fp) -> FieldWire
    requires
        v.wf(),
{
    let x = ark_bls12_381::Fr::from_repr(ark_ff::BigInteger256::new([v.l0, v.l1, v.l2, v.l3]))
        .unwrap();
    let wire = ark_r1cs_std::fields::fp::FpVar::new_input(cs.cs.clone(), || Ok(x)).unwrap();
    FieldWire { wire }
}

/// Relies on `ark_r1cs_std` `FpVar::new_input` with an absent assignment:
/// allocates a public-input wire carrying no value.  Only a system in
/// setup mode skips the assignment; in proving mode the absent assignment
/// is an error, so that mode is excluded.
#[verifier::external_body]
fn wire_new_input_unknown(circuit: &Circuit) -> FieldWire
    requires
        circuit.setup@,
{
    let missing: Result<ark_bls12_381::Fr, ark_relations::r1cs::SynthesisError> =
        Err(ark_relations::r1cs::SynthesisError::AssignmentMissing);
    let wire = ark_r1cs_std::fields::fp::FpVar::new_input(circuit.handle.cs.clone(), move || missing)
        .unwrap();
    FieldWire { wire }
}

/// Relies on `ark_r1cs_std` `FpVar::new_witness`: allocates a secret
/// witness wire bound to the given value.
#[verifier::external_body]
fn wire_new_witness_known(cs: &CircuitHandle, v: &Fp) -> FieldWire
    requires
        v.wf(),
{
    let x = ark_bls12_381::Fr::from_repr(ark_ff::BigInteger256::new([v.l0, v.l1, v.l2, v.l3]))
        .unwrap();
    let wire = ark_r1cs_std::fields::fp::FpVar::new_witness(cs.cs.clone(), || Ok(x)).unwrap();
    FieldWire { wire }
}

/// Relies on `ark_r1cs_std` `FpVar::new_witness` with an absent
/// assignment: allocates a secret witness wire carrying no value, in
/// setup mode only, as above.
#[verifier::external_body]
fn wire_new_witness_unknown(circuit: &Circuit) -> FieldWire
    requires
        circuit.setup@,
{
    let missing: Result<ark_bls12_381::Fr, ark_relations::r1cs::SynthesisError> =
        Err(ark_relations::r1cs::SynthesisError::AssignmentMissing);
    let wire = ark_r1cs_std::fields::fp::FpVar::new_witness(circuit.handle.cs.clone(), move || missing)
        .unwrap();
    FieldWire { wire }
}

/// Relies on `ark_r1cs_std` `Boolean::new_witness`: allocates a secret
/// boolean wire bound to the given value.
#[verifier::external_body]
fn bool_new_witness_known(cs: &CircuitHandle, b: bool) -> BoolWire {
    let wire = ark_r1cs_std::bits::boolean::Boolean::new_witness(cs.cs.clone(), || Ok(b)).unwrap();
    BoolWire { wire }
}

/// Relies on `ark_r1cs_std` `Boolean::new_witness` with an absent
/// assignment: allocates a secret boolean wire carrying no value, in
/// setup mode only, as above.
#[verifier::external_body]
fn bool_new_witness_unknown(circuit: &Circuit) -> BoolWire
    requires
        circuit.setup@,
{
    let missing: Result<bool, ark_relations::r1cs::SynthesisError> =
        Err(ark_relations::r1cs::SynthesisError::AssignmentMissing);
    let wire = ark_r1cs_std::bits::boolean::Boolean::new_witness(circuit.handle.cs.clone(), move || missing)
        .unwrap();
    BoolWire { wire }
}

/// Relies on `ark_r1cs_std` `FpVar` addition of two wires.
#[verifier::external_body]
fn wire_add(lhs: &FieldWire, rhs: &FieldWire) -> FieldWire {
    FieldWire { wire: &lhs.wire + &rhs.wire }
}

/// Relies on `ark_r1cs_std` `FpVar` multiplication of two wires.  Under a
/// proving-mode system the product's assignment is evaluated from the
/// operands', so the operands must come from systems of one mode and, in
/// proving mode, be bound; a setup-mode system skips the evaluation.
#[verifier::external_body]
fn wire_mul(lhs: &ScalarVar, rhs: &ScalarVar) -> FieldWire
    requires
        lhs.sys@ == rhs.sys@,
        !lhs.sys@ ==> lhs.value is Some && rhs.value is Some,
{
    FieldWire { wire: &lhs.wire.wire * &rhs.wire.wire }
}

/// Relies on `ark_r1cs_std` `FpVar` addition of a wire and an embedded
/// constant.
#[verifier::external_body]
fn wire_add_const(lhs: &FieldWire, k: &Fp) -> FieldWire
    requires
        k.wf(),
{
    let x = ark_bls12_381::Fr::from_repr(ark_ff::BigInteger256::new([k.l0, k.l1, k.l2, k.l3]))
        .unwrap();
    FieldWire { wire: &lhs.wire + ark_r1cs_std::fields::fp::FpVar::Constant(x) }
}

/// Relies on `ark_r1cs_std` `FpVar` multiplication of a wire by an
/// embedded constant.
#[verifier::external_body]
fn wire_mul_const(lhs: &FieldWire, k: &Fp) -> FieldWire
    requires
        k.wf(),
{
    let x = ark_bls12_381::Fr::from_repr(ark_ff::BigInteger256::new([k.l0, k.l1, k.l2, k.l3]))
        .unwrap();
    FieldWire { wire: &lhs.wire * ark_r1cs_std::fields::fp::FpVar::Constant(x) }
}

/// Relies on `Clone` for `ark_r1cs_std` `FpVar`: the same wire again.
#[verifier::external_body]
fn wire_clone(x: &FieldWire) -> FieldWire {
    FieldWire { wire: x.wire.clone() }
}

/// Relies on `ark_r1cs_std` `EqGadget::enforce_equal`: emits the
/// constraint that the two wires are equal.
#[verifier::external_body]
fn wire_enforce_equal(lhs: &FieldWire, rhs: &FieldWire) {
    lhs.wire.enforce_equal(&rhs.wire).expect("enforcing equality is not allowed to fail");
}

/// Relies on `ark_r1cs_std` `EqGadget::is_eq`: a boolean wire carrying
/// whether the two wires are equal.  The comparison wire's assignment is
/// evaluated under a proving-mode system, so the same mixing fence as for
/// multiplication applies.
#[verifier::external_body]
fn wire_is_eq(lhs: &ScalarVar, rhs: &ScalarVar) -> BoolWire
    requires
        lhs.sys@ == rhs.sys@,
        !lhs.sys@ ==> lhs.value is Some && rhs.value is Some,
{
    BoolWire {
        wire: lhs.wire.wire.is_eq(&rhs.wire.wire).expect(
            "equality checking is not allowed to fail",
        ),
    }
}

/// Relies on `ark_r1cs_std` `EqGadget::enforce_equal` against the constant
/// true boolean: the constraint that the boolean wire holds.
#[verifier::external_body]
fn bool_enforce_true(b: &BoolWire) {
    b.wire.enforce_equal(&ark_r1cs_std::bits::boolean::Boolean::TRUE)
        .expect("enforcing equality is not allowed to fail");
}

/// Relies on `ark_r1cs_std` `CondSelectGadget::conditionally_select`: the
/// first wire where the boolean holds, the second otherwise.  The selected
/// wire's assignment is evaluated under a proving-mode system, so the same
/// mixing fence as for multiplication applies, the condition included.
#[verifier::external_body]
fn wire_cond_select(bit: &BoolVar, on_true: &ScalarVar, on_false: &ScalarVar) -> FieldWire
    requires
        bit.sys@ == on_true.sys@,
        bit.sys@ == on_false.sys@,
        !bit.sys@ ==> bit.value is Some && on_true.value is Some && on_false.value is Some,
{
    FieldWire {
        wire: ark_r1cs_std::fields::fp::FpVar::conditionally_select(
            &bit.wire.wire,
            &on_true.wire.wire,
            &on_false.wire.wire,
        ).expect("conditional selection is not allowed to fail"),
    }
}

/// A field wire together with the value it is bound to, if any, and the
/// mode of the system it was allocated under (`sys` true for setup mode).
/// Wires of different modes must never be combined: under a proving-mode
/// system the constraint library evaluates assignments, so an unbound
/// setup-mode wire would make it panic.
pub struct ScalarVar {
    pub wire: FieldWire,
    pub value: Option<Fp>,
    pub sys: Ghost<bool>,
}

/// A boolean wire together with the value it is bound to, if any, and the
/// mode of the system it was allocated under, as for [`ScalarVar`].
pub struct BoolVar {
    pub wire: BoolWire,
    pub value: Option<bool>,
    pub sys: Ghost<bool>,
}

/// A relation instance under construction: the constraint system handle,
/// together with a ghost marker for the mode it was created in.  Only a
/// system in setup mode may allocate unbound variables: in proving mode
/// the underlying system demands an assignment for every allocation.  The
/// marker is meaningful only for a handle made by [`Circuit::for_compile`]
/// or [`Circuit::for_prove`], which keep it truthful; nothing else in the
/// library assembles a `Circuit`.
pub struct Circuit {
    pub handle: CircuitHandle,
    pub setup: Ghost<bool>,
}

impl Circuit {
    /// A fresh constraint system ready for unknown variables: it records
    /// the relation's shape for key generation.
    pub fn for_compile() -> (r: Circuit)
        ensures
            r.setup@,
    {
        Circuit { handle: new_cs_for_compile(), setup: Ghost(true) }
    }

    /// A fresh constraint system ready for known variables: it records the
    /// full assignment for proving.
    pub fn for_prove() -> (r: Circuit)
        ensures
            !r.setup@,
    {
        Circuit { handle: new_cs_for_prove(), setup: Ghost(false) }
    }

    /// Allocates a fresh variable bound to `value`, as a public input or a
    /// secret witness.
    pub fn allocate_known(&mut self, value: &Fp, mode: Mode) -> (r: ScalarVar)
        requires
            value.wf(),
            mode == Mode::Public || mode == Mode::Secret,
        ensures
            r.value == Some(*value),
            r.sys@ == old(self).setup@,
            final(self).setup == old(self).setup,
    {
        let wire = match mode {
            Mode::Public => wire_new_input_known(&self.handle, value),
            _ => wire_new_witness_known(&self.handle, value),
        };
        ScalarVar { wire, value: Some(*value), sys: Ghost(self.setup@) }
    }

    /// Allocates a fresh variable with no bound value, used only to
    /// describe the relation's shape at key-generation time: the system
    /// must be in setup mode.
    pub fn allocate_unknown(&mut self, mode: Mode) -> (r: ScalarVar)
        requires
            old(self).setup@,
            mode == Mode::Public || mode == Mode::Secret,
        ensures
            r.value is None,
            r.sys@ == old(self).setup@,
            final(self).setup == old(self).setup,
    {
        let wire = match mode {
            Mode::Public => wire_new_input_unknown(self),
            _ => wire_new_witness_unknown(self),
        };
        ScalarVar { wire, value: None, sys: Ghost(self.setup@) }
    }

    /// Allocates a secret boolean witness bound to `value`.
    pub fn allocate_bool_known(&mut self, value: bool) -> (r: BoolVar)
        ensures
            r.value == Some(value),
            r.sys@ == old(self).setup@,
            final(self).setup == old(self).setup,
    {
        BoolVar { wire: bool_new_witness_known(&self.handle, value), value: Some(value), sys: Ghost(self.setup@) }
    }

    /// Allocates a secret boolean witness with no bound value: the system
    /// must be in setup mode.
    pub fn allocate_bool_unknown(&mut self) -> (r: BoolVar)
        requires
            old(self).setup@,
        ensures
            r.value is None,
            r.sys@ == old(self).setup@,
            final(self).setup == old(self).setup,
    {
        BoolVar { wire: bool_new_witness_unknown(self), value: None, sys: Ghost(self.setup@) }
    }
}

/// The circuit backend: elements are wires with optional bound values, and
/// assertions become constraints checked at proving time.
pub struct R1CS;

impl Specification for R1CS {
    type Field = ScalarVar;
    type Bool = BoolVar;
    type Compiler = Circuit;

    open spec fn fval(x: &ScalarVar) -> Option<nat> {
        match x.value {
            Some(f) => Some(f@),
            None => None,
        }
    }

    open spec fn fwf(x: &ScalarVar) -> bool {
        x.value matches Some(f) ==> f.wf()
    }

    open spec fn bval(b: &BoolVar) -> Option<bool> {
        b.value
    }

    open spec fn checked_eq(lhs: &ScalarVar, rhs: &ScalarVar) -> bool {
        true
    }

    open spec fn checked_true(b: &BoolVar) -> bool {
        true
    }

    open spec fn cmode(compiler: &Circuit) -> bool {
        compiler.setup@
    }

    open spec fn fmode(x: &ScalarVar) -> bool {
        x.sys@
    }

    open spec fn bmode(b: &BoolVar) -> bool {
        b.sys@
    }

    proof fn fwf_bound(x: &ScalarVar) {
    }

    fn dup(compiler: &mut Circuit, x: &ScalarVar) -> (r: ScalarVar) {
        ScalarVar { wire: wire_clone(&x.wire), value: x.value, sys: Ghost(x.sys@) }
    }

    fn constant(compiler: &mut Circuit, k: &Fp) -> (r: ScalarVar) {
        ScalarVar {
            wire: wire_new_witness_known(&compiler.handle, k),
            value: Some(*k),
            sys: Ghost(compiler.setup@),
        }
    }

    fn add(compiler: &mut Circuit, lhs: &ScalarVar, rhs: &ScalarVar) -> (r: ScalarVar) {
        let value = match (lhs.value, rhs.value) {
            (Some(x), Some(y)) => Some(fp_add(&x, &y)),
            _ => None,
        };
        ScalarVar { wire: wire_add(&lhs.wire, &rhs.wire), value, sys: Ghost(compiler.setup@) }
    }

    fn mul(compiler: &mut Circuit, lhs: &ScalarVar, rhs: &ScalarVar) -> (r: ScalarVar) {
        let value = match (lhs.value, rhs.value) {
            (Some(x), Some(y)) => Some(fp_mul(&x, &y)),
            _ => None,
        };
        ScalarVar { wire: wire_mul(lhs, rhs), value, sys: Ghost(compiler.setup@) }
    }

    fn add_const(compiler: &mut Circuit, lhs: &ScalarVar, k: &Fp) -> (r: ScalarVar) {
        let value = match lhs.value {
            Some(x) => Some(fp_add(&x, k)),
            _ => None,
        };
        ScalarVar { wire: wire_add_const(&lhs.wire, k), value, sys: Ghost(compiler.setup@) }
    }

    fn mul_const(compiler: &mut Circuit, lhs: &ScalarVar, k: &Fp) -> (r: ScalarVar) {
        let value = match lhs.value {
            Some(x) => Some(fp_mul(&x, k)),
            _ => None,
        };
        ScalarVar { wire: wire_mul_const(&lhs.wire, k), value, sys: Ghost(compiler.setup@) }
    }

    fn assert_eq(compiler: &mut Circuit, lhs: &ScalarVar, rhs: &ScalarVar) -> (r: Result<
        (),
        RelationViolation,
    >) {
        wire_enforce_equal(&lhs.wire, &rhs.wire);
        Ok(())
    }

    fn is_eq(compiler: &mut Circuit, lhs: &ScalarVar, rhs: &ScalarVar) -> (r: BoolVar) {
        let value = match (lhs.value, rhs.value) {
            (Some(x), Some(y)) => {
                proof {
                    if x@ == y@ {
                        crate::field::lemma_value_injective(x, y);
                    }
                }
                Some(x == y)
            },
            _ => None,
        };
        BoolVar { wire: wire_is_eq(lhs, rhs), value, sys: Ghost(compiler.setup@) }
    }

    fn assert_true(compiler: &mut Circuit, b: &BoolVar) -> (r: Result<(), RelationViolation>) {
        bool_enforce_true(&b.wire);
        Ok(())
    }

    fn swap(compiler: &mut Circuit, bit: &BoolVar, lhs: &ScalarVar, rhs: &ScalarVar) -> (r: (
        ScalarVar,
        ScalarVar,
    )) {
        let first_value = match (bit.value, lhs.value, rhs.value) {
            (Some(s), Some(x), Some(y)) => Some(if s { y } else { x }),
            _ => None,
        };
        let second_value = match (bit.value, lhs.value, rhs.value) {
            (Some(s), Some(x), Some(y)) => Some(if s { x } else { y }),
            _ => None,
        };
        let first = ScalarVar {
            wire: wire_cond_select(bit, rhs, lhs),
            value: first_value,
            sys: Ghost(compiler.setup@),
        };
        let second = ScalarVar {
            wire: wire_cond_select(bit, lhs, rhs),
            value: second_value,
            sys: Ghost(compiler.setup@),
        };
        (first, second)
    }
}


/// A membership path allocated in the circuit: one direction boolean and
/// one sibling wire per level, all secret witnesses.
pub struct PathVar {
    pub bits: Vec<BoolVar>,
    pub siblings: Vec<ScalarVar>,
}

impl PathVar {
    /// The wires have one entry per tree level and any bound sibling value
    /// is reduced.
    pub open spec fn wf(&self) -> bool {
        &&& self.bits@.len() == crate::merkle_tree::HEIGHT
        &&& self.siblings@.len() == crate::merkle_tree::HEIGHT
        &&& crate::poseidon::all_wf::<R1CS>(self.siblings@)
    }

    /// Every wire of the path was allocated under a system of the given
    /// mode and, under a proving-mode system, is bound.
    pub open spec fn in_mode(&self, cm: bool) -> bool {
        &&& crate::poseidon::all_bin::<R1CS>(cm, self.bits@)
        &&& crate::poseidon::all_in::<R1CS>(cm, self.siblings@)
    }

    /// All wires are bound, the booleans to the binary digits of the
    /// path's position and the siblings to its digests.
    pub open spec fn bound_to(&self, path: crate::merkle_tree::Path) -> bool {
        &&& crate::merkle_tree::bits_bound::<R1CS>(self.bits@, path.leaf_index as int)
        &&& crate::poseidon::all_bound::<R1CS>(self.siblings@)
        &&& crate::poseidon::seq_vals::<R1CS>(self.siblings@) == path.sib_vals()
    }

    /// Allocates the path as known secret witnesses.
    pub fn new_known(this: &crate::merkle_tree::Path, compiler: &mut Circuit) -> (r: PathVar)
        requires
            this.wf(),
        ensures
            r.wf(),
            r.bound_to(*this),
            r.in_mode(old(compiler).setup@),
            final(compiler).setup == old(compiler).setup,
    {
        let ghost idx = this.leaf_index as int;
        let mut bits: Vec<BoolVar> = Vec::new();
        let mut cur: u64 = this.leaf_index;
        let mut l: usize = 0;
        proof {
            vstd::arithmetic::power2::lemma2_to64();
            vstd::arithmetic::div_mod::lemma_div_basics(idx);
        }
        while l < crate::merkle_tree::HEIGHT
            invariant
                compiler.setup@ == old(compiler).setup@,
                0 <= l <= crate::merkle_tree::HEIGHT,
                idx == this.leaf_index as int,
                idx >= 0,
                bits@.len() == l,
                cur as int == idx / vstd::arithmetic::power2::pow2(l as nat) as int,
                forall|m: int|
                    0 <= m < l ==> #[trigger] R1CS::bval(&bits@[m]) == Some(
                        idx / vstd::arithmetic::power2::pow2(m as nat) as int % 2 == 1,
                    ),
                crate::poseidon::all_bin::<R1CS>(old(compiler).setup@, bits@),
            decreases crate::merkle_tree::HEIGHT - l,
        {
            proof {
                vstd::arithmetic::power2::lemma_pow2_pos(l as nat);
                vstd::arithmetic::div_mod::lemma_div_denominator(
                    idx,
                    vstd::arithmetic::power2::pow2(l as nat) as int,
                    2,
                );
                vstd::arithmetic::power2::lemma_pow2_adds(l as nat, 1);
                vstd::arithmetic::power2::lemma2_to64();
            }
            let b = compiler.allocate_bool_known(cur % 2 == 1);
            bits.push(b);
            cur = cur / 2;
            l = l + 1;
        }
        let mut siblings: Vec<ScalarVar> = Vec::new();
        let mut i: usize = 0;
        while i < crate::merkle_tree::HEIGHT
            invariant
                compiler.setup@ == old(compiler).setup@,
                this.wf(),
                0 <= i <= crate::merkle_tree::HEIGHT,
                siblings@.len() == i,
                forall|m: int|
                    0 <= m < i ==> #[trigger] R1CS::fval(&siblings@[m]) == Some(
                        this.siblings@[m]@,
                    ) && R1CS::fwf(&siblings@[m]),
                crate::poseidon::all_in::<R1CS>(old(compiler).setup@, siblings@),
            decreases crate::merkle_tree::HEIGHT - i,
        {
            let s = compiler.allocate_known(&this.siblings[i], Mode::Secret);
            siblings.push(s);
            i = i + 1;
        }
        proof {
            assert(crate::poseidon::seq_vals::<R1CS>(siblings@) =~= this.sib_vals());
            assert forall|m: int| 0 <= m < siblings@.len() implies #[trigger] R1CS::fwf(
                &siblings@[m],
            ) by {
                assert(R1CS::fval(&siblings@[m]) == Some(this.siblings@[m]@));
            }
        }
        PathVar { bits, siblings }
    }

    /// Allocates the path's shape only: every wire is an unbound secret
    /// witness, so the system must be in setup mode.
    pub fn new_unknown(compiler: &mut Circuit) -> (r: PathVar)
        requires
            old(compiler).setup@,
        ensures
            r.wf(),
            r.in_mode(old(compiler).setup@),
            final(compiler).setup == old(compiler).setup,
            forall|m: int| 0 <= m < r.bits@.len() ==> #[trigger] R1CS::bval(&r.bits@[m]) is None,
            forall|m: int|
                0 <= m < r.siblings@.len() ==> #[trigger] R1CS::fval(&r.siblings@[m]) is None,
    {
        let mut bits: Vec<BoolVar> = Vec::new();
        let mut l: usize = 0;
        while l < crate::merkle_tree::HEIGHT
            invariant
                compiler.setup@ == old(compiler).setup@,
                compiler.setup@,
                0 <= l <= crate::merkle_tree::HEIGHT,
                bits@.len() == l,
                forall|m: int| 0 <= m < l ==> #[trigger] R1CS::bval(&bits@[m]) is None,
                crate::poseidon::all_bin::<R1CS>(old(compiler).setup@, bits@),
            decreases crate::merkle_tree::HEIGHT - l,
        {
            let b = compiler.allocate_bool_unknown();
            bits.push(b);
            l = l + 1;
        }
        let mut siblings: Vec<ScalarVar> = Vec::new();
        let mut i: usize = 0;
        while i < crate::merkle_tree::HEIGHT
            invariant
                compiler.setup@ == old(compiler).setup@,
                compiler.setup@,
                0 <= i <= crate::merkle_tree::HEIGHT,
                siblings@.len() == i,
                forall|m: int| 0 <= m < i ==> #[trigger] R1CS::fwf(&siblings@[m]),
                forall|m: int| 0 <= m < i ==> #[trigger] R1CS::fval(&siblings@[m]) is None,
                crate::poseidon::all_in::<R1CS>(old(compiler).setup@, siblings@),
            decreases crate::merkle_tree::HEIGHT - i,
        {
            let s = compiler.allocate_unknown(Mode::Secret);
            proof {
                assert(R1CS::fwf(&s));
            }
            siblings.push(s);
            i = i + 1;
        }
        PathVar { bits, siblings }
    }
}


/// Hash equivalence across modes: a native result and a circuit wire both
/// bound to the hash of the same input values carry the same field value.
/// The hypotheses are exactly what [`Hasher::hash`] ensures natively and
/// over wires bound to those inputs: the circuit path re-derives the
/// native hash, it does not approximate it.
///
/// [`Hasher::hash`]: crate::poseidon::Hasher::hash
pub proof fn lemma_hash_mode_equivalence(
    h: crate::poseidon::Hasher,
    inputs: Seq<nat>,
    native_out: Fp,
    circuit_out: ScalarVar,
)
    requires
        native_out@ == h.hash_f(inputs),
        R1CS::fval(&circuit_out) == Some(h.hash_f(inputs)),
    ensures
        R1CS::fval(&circuit_out) == Some(native_out@),
{
}

} // verus!
