//! Compiler abstraction: one algorithm, two execution modes.
//!
//! A [`Specification`] backend decides how field operations run: the
//! [`Native`] backend computes on concrete [`Fp`] values, while a circuit
//! backend builds symbolic wires and accumulates constraints.  Every
//! operation carries the same value-level contract, so an algorithm written
//! once against the trait computes the same field values in both modes —
//! the circuit path re-derives the native result exactly.

use vstd::prelude::*;
use crate::field::{Fp, add_f, mul_f, fp_add, fp_mul, modulus};

verus! {

/// The value inside an optional binding, zero when absent (only ever used
/// under an explicit "is bound" hypothesis).
pub open spec fn optv(o: Option<nat>) -> nat {
    match o {
        Some(v) => v,
        None => 0,
    }
}

/// The truth value inside an optional binding, false when absent.
pub open spec fn optb(o: Option<bool>) -> bool {
    match o {
        Some(b) => b,
        None => false,
    }
}

/// How a value enters a relation instance: embedded as a fixed constant,
/// allocated as a public input, allocated as a secret witness, or derived
/// from already-allocated values without a fresh allocation.
#[derive(Clone, Copy, Debug, PartialEq, Eq, Structural)]
pub enum Mode {
    Constant,
    Public,
    Secret,
    Derived,
}

/// An asserted equality did not hold of the concrete witness values.
#[derive(Clone, Copy, Debug, PartialEq, Eq, Structural)]
pub struct RelationViolation;

/// A dual-mode arithmetic backend.
///
/// `Field` elements may carry a concrete bound value (`fval`); in a circuit
/// built only to describe a relation's shape they carry none.  Whenever all
/// operands are bound, each operation's result is bound to the exact modular
/// arithmetic of the operand values.
pub trait Specification: Sized {
    type Field;
    type Bool;
    type Compiler;

    /// The reduced field value an element is bound to, if any.
    spec fn fval(x: &Self::Field) -> Option<nat>;

    /// A bound value is fully reduced.
    spec fn fwf(x: &Self::Field) -> bool;

    /// The truth value a boolean is bound to, if any.
    spec fn bval(b: &Self::Bool) -> Option<bool>;

    /// What an accepted equality assertion establishes: for the native
    /// backend, that the two values are equal; for a circuit backend the
    /// check is deferred to proving time and nothing is established here.
    spec fn checked_eq(lhs: &Self::Field, rhs: &Self::Field) -> bool;

    /// What an accepted boolean assertion establishes, in the same sense.
    spec fn checked_true(b: &Self::Bool) -> bool;

    /// Whether the compiler records only the relation's shape (setup
    /// mode).  The native backend has no such mode.
    spec fn cmode(compiler: &Self::Compiler) -> bool;

    /// The mode of the system an element was allocated under.  Elements
    /// of different modes must never be combined: under a proving-mode
    /// system every operand must carry a bound value.
    spec fn fmode(x: &Self::Field) -> bool;

    /// The mode of the system a boolean was allocated under.
    spec fn bmode(b: &Self::Bool) -> bool;

    /// A well-formed element's bound value, if any, is fully reduced.
    proof fn fwf_bound(x: &Self::Field)
        requires
            Self::fwf(x),
        ensures
            Self::fval(x) matches Some(v) ==> v < modulus(),
    ;

    /// An owned element equal to `x`.
    fn dup(compiler: &mut Self::Compiler, x: &Self::Field) -> (r: Self::Field)
        requires
            Self::fwf(x),
            Self::fmode(x) == Self::cmode(old(compiler)),
            !Self::cmode(old(compiler)) ==> Self::fval(x) is Some,
        ensures
            Self::fwf(&r),
            Self::fval(&r) == Self::fval(x),
            Self::cmode(final(compiler)) == Self::cmode(old(compiler)),
            Self::fmode(&r) == Self::cmode(old(compiler)),
            !Self::cmode(old(compiler)) ==> Self::fval(&r) is Some;

    /// Embeds the fixed element `k`, never a per-instance allocation.
    fn constant(compiler: &mut Self::Compiler, k: &Fp) -> (r: Self::Field)
        requires
            k.wf(),
        ensures
            Self::fwf(&r),
            Self::fval(&r) == Some(k@),
            Self::cmode(final(compiler)) == Self::cmode(old(compiler)),
            Self::fmode(&r) == Self::cmode(old(compiler));

    /// Field addition.
    fn add(compiler: &mut Self::Compiler, lhs: &Self::Field, rhs: &Self::Field) -> (r: Self::Field)
        requires
            Self::fwf(lhs),
            Self::fwf(rhs),
            Self::fmode(lhs) == Self::cmode(old(compiler)),
            Self::fmode(rhs) == Self::cmode(old(compiler)),
            !Self::cmode(old(compiler)) ==> Self::fval(lhs) is Some && Self::fval(rhs) is Some,
        ensures
            Self::fwf(&r),
            Self::fval(lhs) is Some && Self::fval(rhs) is Some ==> Self::fval(&r) == Some(
                add_f(optv(Self::fval(lhs)), optv(Self::fval(rhs))),
            ),
            Self::cmode(final(compiler)) == Self::cmode(old(compiler)),
            Self::fmode(&r) == Self::cmode(old(compiler)),
            !Self::cmode(old(compiler)) ==> Self::fval(&r) is Some;

    /// Field multiplication.
    fn mul(compiler: &mut Self::Compiler, lhs: &Self::Field, rhs: &Self::Field) -> (r: Self::Field)
        requires
            Self::fwf(lhs),
            Self::fwf(rhs),
            Self::fmode(lhs) == Self::cmode(old(compiler)),
            Self::fmode(rhs) == Self::cmode(old(compiler)),
            !Self::cmode(old(compiler)) ==> Self::fval(lhs) is Some && Self::fval(rhs) is Some,
        ensures
            Self::fwf(&r),
            Self::fval(lhs) is Some && Self::fval(rhs) is Some ==> Self::fval(&r) == Some(
                mul_f(optv(Self::fval(lhs)), optv(Self::fval(rhs))),
            ),
            Self::cmode(final(compiler)) == Self::cmode(old(compiler)),
            Self::fmode(&r) == Self::cmode(old(compiler)),
            !Self::cmode(old(compiler)) ==> Self::fval(&r) is Some;

    /// Adds the constant `k` to `lhs`.
    fn add_const(compiler: &mut Self::Compiler, lhs: &Self::Field, k: &Fp) -> (r: Self::Field)
        requires
            Self::fwf(lhs),
            k.wf(),
            Self::fmode(lhs) == Self::cmode(old(compiler)),
            !Self::cmode(old(compiler)) ==> Self::fval(lhs) is Some,
        ensures
            Self::fwf(&r),
            Self::fval(lhs) matches Some(x) ==> Self::fval(&r) == Some(add_f(x, k@)),
            Self::cmode(final(compiler)) == Self::cmode(old(compiler)),
            Self::fmode(&r) == Self::cmode(old(compiler)),
            !Self::cmode(old(compiler)) ==> Self::fval(&r) is Some;

    /// Multiplies `lhs` by the constant `k`.
    fn mul_const(compiler: &mut Self::Compiler, lhs: &Self::Field, k: &Fp) -> (r: Self::Field)
        requires
            Self::fwf(lhs),
            k.wf(),
            Self::fmode(lhs) == Self::cmode(old(compiler)),
            !Self::cmode(old(compiler)) ==> Self::fval(lhs) is Some,
        ensures
            Self::fwf(&r),
            Self::fval(lhs) matches Some(x) ==> Self::fval(&r) == Some(mul_f(x, k@)),
            Self::cmode(final(compiler)) == Self::cmode(old(compiler)),
            Self::fmode(&r) == Self::cmode(old(compiler)),
            !Self::cmode(old(compiler)) ==> Self::fval(&r) is Some;

    /// Asserts that two elements are equal.  The native backend decides at
    /// once and reports a violation; a circuit backend emits a constraint
    /// that is checked at proving time and accepts here.
    fn assert_eq(compiler: &mut Self::Compiler, lhs: &Self::Field, rhs: &Self::Field) -> (r: Result<
        (),
        RelationViolation,
    >)
        requires
            Self::fwf(lhs),
            Self::fwf(rhs),
        ensures
            r is Ok <==> Self::checked_eq(lhs, rhs),
            Self::cmode(final(compiler)) == Self::cmode(old(compiler)),
    ;

    /// The boolean "`lhs` equals `rhs`".
    fn is_eq(compiler: &mut Self::Compiler, lhs: &Self::Field, rhs: &Self::Field) -> (r: Self::Bool)
        requires
            Self::fwf(lhs),
            Self::fwf(rhs),
            Self::fmode(lhs) == Self::cmode(old(compiler)),
            Self::fmode(rhs) == Self::cmode(old(compiler)),
            !Self::cmode(old(compiler)) ==> Self::fval(lhs) is Some && Self::fval(rhs) is Some,
        ensures
            Self::fval(lhs) is Some && Self::fval(rhs) is Some ==> Self::bval(&r) == Some(
                optv(Self::fval(lhs)) == optv(Self::fval(rhs)),
            ),
            Self::cmode(final(compiler)) == Self::cmode(old(compiler)),
            Self::bmode(&r) == Self::cmode(old(compiler)),
            !Self::cmode(old(compiler)) ==> Self::bval(&r) is Some;

    /// Asserts that a boolean holds, in the same two-mode sense as
    /// `assert_eq`.
    fn assert_true(compiler: &mut Self::Compiler, b: &Self::Bool) -> (r: Result<
        (),
        RelationViolation,
    >)
        ensures
            r is Ok <==> Self::checked_true(b),
            Self::cmode(final(compiler)) == Self::cmode(old(compiler)),
    ;

    /// Swaps the pair exactly when `bit` is set.
    fn swap(
        compiler: &mut Self::Compiler,
        bit: &Self::Bool,
        lhs: &Self::Field,
        rhs: &Self::Field,
    ) -> (r: (Self::Field, Self::Field))
        requires
            Self::fwf(lhs),
            Self::fwf(rhs),
            Self::bmode(bit) == Self::cmode(old(compiler)),
            Self::fmode(lhs) == Self::cmode(old(compiler)),
            Self::fmode(rhs) == Self::cmode(old(compiler)),
            !Self::cmode(old(compiler)) ==> Self::bval(bit) is Some && Self::fval(lhs) is Some
                && Self::fval(rhs) is Some,
        ensures
            Self::fwf(&r.0),
            Self::fwf(&r.1),
            Self::cmode(final(compiler)) == Self::cmode(old(compiler)),
            Self::fmode(&r.0) == Self::cmode(old(compiler)),
            Self::fmode(&r.1) == Self::cmode(old(compiler)),
            !Self::cmode(old(compiler)) ==> Self::fval(&r.0) is Some && Self::fval(&r.1) is Some,
            Self::bval(bit) is Some && Self::fval(lhs) is Some && Self::fval(rhs) is Some ==> {
                &&& Self::fval(&r.0) == Some(
                    if optb(Self::bval(bit)) {
                        optv(Self::fval(rhs))
                    } else {
                        optv(Self::fval(lhs))
                    },
                )
                &&& Self::fval(&r.1) == Some(
                    if optb(Self::bval(bit)) {
                        optv(Self::fval(lhs))
                    } else {
                        optv(Self::fval(rhs))
                    },
                )
            },
    ;
}

/// The native backend: no compiler state, elements are concrete values,
/// and assertions are decided on the spot.
pub struct Native;

/// The (empty) compiler state of the native backend.
pub struct NativeCompiler;

impl Specification for Native {
    type Field = Fp;
    type Bool = bool;
    type Compiler = NativeCompiler;

    open spec fn fval(x: &Fp) -> Option<nat> {
        Some(x@)
    }

    open spec fn fwf(x: &Fp) -> bool {
        x.wf()
    }

    open spec fn bval(b: &bool) -> Option<bool> {
        Some(*b)
    }

    open spec fn checked_eq(lhs: &Fp, rhs: &Fp) -> bool {
        lhs@ == rhs@
    }

    open spec fn checked_true(b: &bool) -> bool {
        *b
    }

    open spec fn cmode(compiler: &NativeCompiler) -> bool {
        false
    }

    open spec fn fmode(x: &Fp) -> bool {
        false
    }

    open spec fn bmode(b: &bool) -> bool {
        false
    }

    proof fn fwf_bound(x: &Fp) {
    }

    fn dup(compiler: &mut NativeCompiler, x: &Fp) -> Fp {
        *x
    }

    fn constant(compiler: &mut NativeCompiler, k: &Fp) -> Fp {
        *k
    }

    fn add(compiler: &mut NativeCompiler, lhs: &Fp, rhs: &Fp) -> Fp {
        fp_add(lhs, rhs)
    }

    fn mul(compiler: &mut NativeCompiler, lhs: &Fp, rhs: &Fp) -> Fp {
        fp_mul(lhs, rhs)
    }

    fn add_const(compiler: &mut NativeCompiler, lhs: &Fp, k: &Fp) -> Fp {
        fp_add(lhs, k)
    }

    fn mul_const(compiler: &mut NativeCompiler, lhs: &Fp, k: &Fp) -> Fp {
        fp_mul(lhs, k)
    }

    fn assert_eq(compiler: &mut NativeCompiler, lhs: &Fp, rhs: &Fp) -> (r: Result<
        (),
        RelationViolation,
    >) {
        proof {
            if lhs@ == rhs@ {
                crate::field::lemma_value_injective(*lhs, *rhs);
            }
        }
        if lhs == rhs {
            Ok(())
        } else {
            Err(RelationViolation)
        }
    }

    fn is_eq(compiler: &mut NativeCompiler, lhs: &Fp, rhs: &Fp) -> (r: bool) {
        proof {
            if lhs@ == rhs@ {
                crate::field::lemma_value_injective(*lhs, *rhs);
            }
        }
        lhs == rhs
    }

    fn assert_true(compiler: &mut NativeCompiler, b: &bool) -> (r: Result<(), RelationViolation>) {
        if *b {
            Ok(())
        } else {
            Err(RelationViolation)
        }
    }

    fn swap(compiler: &mut NativeCompiler, bit: &bool, lhs: &Fp, rhs: &Fp) -> (r: (Fp, Fp)) {
        if *bit {
            (*rhs, *lhs)
        } else {
            (*lhs, *rhs)
        }
    }
}

} // verus!
