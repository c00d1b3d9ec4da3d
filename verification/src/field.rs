//! Scalar field of BLS12-381.
//!
//! A field element is kept as its canonical little-endian base-2^64
//! representation, four limbs, always strictly below the field modulus.
//! The mathematical value of an element is its `view`, a `nat`, and every
//! arithmetic operation is specified exactly as modular arithmetic on views.

use vstd::prelude::*;

use ark_ff::Field as ArkField;
use ark_ff::PrimeField as ArkPrimeField;

verus! {

/// 2^64, the base of the limb representation.
pub open spec fn b64() -> nat {
    0x1_0000_0000_0000_0000nat
}

/// 2^128.
pub open spec fn b128() -> nat {
    b64() * b64()
}

/// 2^192.
pub open spec fn b192() -> nat {
    b64() * b64() * b64()
}

/// The prime modulus of the scalar field, limb by limb:
/// 52435875175126190479447740508185965837690552500527637822603658699938581184513.
pub open spec fn modulus() -> nat {
    0xffffffff00000001nat + 0x53bda402fffe5bfenat * b64() + 0x3339d80809a1d805nat * b128()
        + 0x73eda753299d7d48nat * b192()
}

/// Field addition on values.
pub open spec fn add_f(a: nat, b: nat) -> nat {
    (a + b) % modulus()
}

/// Field subtraction on values (both below the modulus).
pub open spec fn sub_f(a: nat, b: nat) -> nat {
    ((a + modulus()) - b) as nat % modulus()
}

/// Field multiplication on values.
pub open spec fn mul_f(a: nat, b: nat) -> nat {
    (a * b) % modulus()
}

/// Field exponentiation on values, with the product reduced at each step.
pub open spec fn pow_f(a: nat, e: nat) -> nat
    decreases e,
{
    if e == 0 {
        1
    } else {
        mul_f(a, pow_f(a, (e - 1) as nat))
    }
}

/// An element of the scalar field: the canonical (fully reduced)
/// little-endian base-2^64 digits of its value.
#[derive(Clone, Copy, Debug, Hash, PartialEq, Eq, Structural)]
pub struct Fp {
    pub l0: u64,
    pub l1: u64,
    pub l2: u64,
    pub l3: u64,
}

impl View for Fp {
    type V = nat;

    open spec fn view(&self) -> nat {
        self.l0 as nat + self.l1 as nat * b64() + self.l2 as nat * b128()
            + self.l3 as nat * b192()
    }
}

impl Fp {
    /// The representation is canonical: the value is fully reduced.
    pub open spec fn wf(&self) -> bool {
        self@ < modulus()
    }

    /// The additive identity.
    pub fn zero() -> (r: Self)
        ensures
            r@ == 0,
            r.wf(),
    {
        Fp { l0: 0, l1: 0, l2: 0, l3: 0 }
    }

    /// The multiplicative identity.
    pub fn one() -> (r: Self)
        ensures
            r@ == 1,
            r.wf(),
    {
        Fp { l0: 1, l1: 0, l2: 0, l3: 0 }
    }

    /// Embeds a machine integer into the field.
    pub fn from_u64(v: u64) -> (r: Self)
        ensures
            r@ == v as nat,
            r.wf(),
    {
        Fp { l0: v, l1: 0, l2: 0, l3: 0 }
    }

    /// True exactly when the element is the additive identity.
    pub fn is_zero(&self) -> (r: bool)
        ensures
            r == (self@ == 0),
    {
        proof {
            assert(self@ == 0 <==> self.l0 == 0 && self.l1 == 0 && self.l2 == 0 && self.l3 == 0)
                by (nonlinear_arith)
                requires
                    self@ == self.l0 as nat + self.l1 as nat * b64() + self.l2 as nat * b128()
                        + self.l3 as nat * b192(),
                    b64() > 0,
                    b128() > 0,
                    b192() > 0,
            ;
        }
        self.l0 == 0 && self.l1 == 0 && self.l2 == 0 && self.l3 == 0
    }
}

/// Two elements with the same value have the same limbs: base-2^64 digits
/// of a number are unique.
pub proof fn lemma_value_injective(a: Fp, b: Fp)
    requires
        a@ == b@,
    ensures
        a == b,
{
    assert(a.l0 == b.l0 && a.l1 == b.l1 && a.l2 == b.l2 && a.l3 == b.l3) by {
        lemma_limbs_from_value(a);
        lemma_limbs_from_value(b);
    }
}

/// Each limb is determined by the value.
proof fn lemma_limbs_from_value(a: Fp)
    ensures
        a.l0 as nat == a@ % b64(),
        a.l1 as nat == (a@ / b64()) % b64(),
        a.l2 as nat == (a@ / b128()) % b64(),
        a.l3 as nat == a@ / b192(),
{
    let b: nat = b64();
    let v = a@;
    assert(v == a.l0 as nat + b * (a.l1 as nat + b * (a.l2 as nat + b * a.l3 as nat)))
        by (nonlinear_arith)
        requires
            v == a.l0 as nat + a.l1 as nat * b64() + a.l2 as nat * b128()
                + a.l3 as nat * b192(),
            b == b64(),
            b128() == b64() * b64(),
            b192() == b64() * b64() * b64(),
    ;
    assert(v % b == a.l0 as nat && v / b == a.l1 as nat + b * (a.l2 as nat + b * a.l3 as nat))
        by (nonlinear_arith)
        requires
            v == a.l0 as nat + b * (a.l1 as nat + b * (a.l2 as nat + b * a.l3 as nat)),
            a.l0 < b,
            b == b64(),
    ;
    assert((v / b) % b == a.l1 as nat && (v / b) / b == a.l2 as nat + b * a.l3 as nat)
        by (nonlinear_arith)
        requires
            v / b == a.l1 as nat + b * (a.l2 as nat + b * a.l3 as nat),
            a.l1 < b,
            b == b64(),
    ;
    assert(((v / b) / b) % b == a.l2 as nat && ((v / b) / b) / b == a.l3 as nat)
        by (nonlinear_arith)
        requires
            (v / b) / b == a.l2 as nat + b * a.l3 as nat,
            a.l2 < b,
            b == b64(),
    ;
    assert(v / b128() == (v / b) / b && v / b192() == ((v / b) / b) / b)
        by (nonlinear_arith)
        requires
            b == b64(),
            b128() == b64() * b64(),
            b192() == b64() * b64() * b64(),
    ;
}

/// Relies on `ark_ff` addition of two BLS12-381 scalar field elements:
/// the canonical representation of the sum modulo the field modulus.
#[verifier::external_body]
pub(crate) fn fp_add(a: &Fp, b: &Fp) -> (r: Fp)
    requires
        a.wf(),
        b.wf(),
    ensures
        r.wf(),
        r@ == add_f(a@, b@),
{
    let x = ark_bls12_381::Fr::from_repr(ark_ff::BigInteger256::new([a.l0, a.l1, a.l2, a.l3]))
        .unwrap();
    let y = ark_bls12_381::Fr::from_repr(ark_ff::BigInteger256::new([b.l0, b.l1, b.l2, b.l3]))
        .unwrap();
    let z = (x + y).into_repr().0;
    Fp { l0: z[0], l1: z[1], l2: z[2], l3: z[3] }
}

/// Relies on `ark_ff` subtraction of two BLS12-381 scalar field elements.
#[verifier::external_body]
pub(crate) fn fp_sub(a: &Fp, b: &Fp) -> (r: Fp)
    requires
        a.wf(),
        b.wf(),
    ensures
        r.wf(),
        r@ == sub_f(a@, b@),
{
    let x = ark_bls12_381::Fr::from_repr(ark_ff::BigInteger256::new([a.l0, a.l1, a.l2, a.l3]))
        .unwrap();
    let y = ark_bls12_381::Fr::from_repr(ark_ff::BigInteger256::new([b.l0, b.l1, b.l2, b.l3]))
        .unwrap();
    let z = (x - y).into_repr().0;
    Fp { l0: z[0], l1: z[1], l2: z[2], l3: z[3] }
}

/// Relies on `ark_ff` multiplication of two BLS12-381 scalar field elements.
#[verifier::external_body]
pub(crate) fn fp_mul(a: &Fp, b: &Fp) -> (r: Fp)
    requires
        a.wf(),
        b.wf(),
    ensures
        r.wf(),
        r@ == mul_f(a@, b@),
{
    let x = ark_bls12_381::Fr::from_repr(ark_ff::BigInteger256::new([a.l0, a.l1, a.l2, a.l3]))
        .unwrap();
    let y = ark_bls12_381::Fr::from_repr(ark_ff::BigInteger256::new([b.l0, b.l1, b.l2, b.l3]))
        .unwrap();
    let z = (x * y).into_repr().0;
    Fp { l0: z[0], l1: z[1], l2: z[2], l3: z[3] }
}

/// Relies on `ark_ff::Field::inverse`: the multiplicative inverse of a
/// nonzero field element, `None` exactly for zero.
#[verifier::external_body]
pub(crate) fn fp_inverse(a: &Fp) -> (r: Option<Fp>)
    requires
        a.wf(),
    ensures
        r is Some <==> a@ != 0,
        r matches Some(inv) ==> inv.wf() && mul_f(a@, inv@) == 1,
{
    let x = ark_bls12_381::Fr::from_repr(ark_ff::BigInteger256::new([a.l0, a.l1, a.l2, a.l3]))
        .unwrap();
    match x.inverse() {
        Some(y) => {
            let z = y.into_repr().0;
            Some(Fp { l0: z[0], l1: z[1], l2: z[2], l3: z[3] })
        },
        None => None,
    }
}

/// The values of a sequence of field elements.
pub open spec fn fp_vals(s: Seq<Fp>) -> Seq<nat> {
    Seq::new(s.len(), |i: int| s[i]@)
}

/// All elements of the sequence are fully reduced.
pub open spec fn fp_all_wf(s: Seq<Fp>) -> bool {
    forall|i: int| 0 <= i < s.len() ==> (#[trigger] s[i]).wf()
}

/// The value of a little-endian byte string.
pub open spec fn le_val(s: Seq<u8>) -> nat
    decreases s.len(),
{
    if s.len() == 0 {
        0
    } else {
        (s[0] as nat) + 256 * le_val(s.drop_first())
    }
}

/// The value of a big-endian bit string.
pub open spec fn be_val(s: Seq<bool>) -> nat
    decreases s.len(),
{
    if s.len() == 0 {
        0
    } else {
        2 * be_val(s.drop_last()) + (if s.last() {
            1nat
        } else {
            0nat
        })
    }
}

/// Relies on `ark_serialize` `CanonicalSerialize` for the scalar field:
/// the canonical value as exactly 32 little-endian bytes.
#[verifier::external_body]
pub fn fp_to_bytes(a: &Fp) -> (r: Vec<u8>)
    requires
        a.wf(),
    ensures
        r@.len() == 32,
        le_val(r@) == a@,
{
    let x = ark_bls12_381::Fr::from_repr(ark_ff::BigInteger256::new([a.l0, a.l1, a.l2, a.l3]))
        .unwrap();
    let mut out: Vec<u8> = Vec::new();
    ark_serialize::CanonicalSerialize::serialize(&x, &mut out).unwrap();
    out
}

/// Relies on `ark_serialize` `CanonicalDeserialize` for the scalar field:
/// 32 little-endian bytes decode exactly when their value lies below the
/// modulus, to the element of that value.
#[verifier::external_body]
pub fn fp_from_bytes(bytes: &[u8; 32]) -> (r: Option<Fp>)
    ensures
        r is Some <==> le_val(bytes@) < modulus(),
        r matches Some(f) ==> f.wf() && f@ == le_val(bytes@),
{
    match <ark_bls12_381::Fr as ark_serialize::CanonicalDeserialize>::deserialize(&bytes[..]) {
        Ok(x) => {
            let z = x.into_repr().0;
            Some(Fp { l0: z[0], l1: z[1], l2: z[2], l3: z[3] })
        },
        Err(_) => None,
    }
}

/// A field element: identities, ring operations and inverses, specified
/// exactly as modular arithmetic on values.
pub trait Field: View<V = nat> + Sized {
    /// The element is fully reduced.
    spec fn fwf(&self) -> bool;

    /// The additive identity.
    fn zero() -> (r: Self)
        ensures
            r@ == 0,
            r.fwf(),
    ;

    /// Whether the element equals the additive identity.
    fn is_zero(&self) -> (r: bool)
        requires
            self.fwf(),
        ensures
            r == (self@ == 0),
    ;

    /// The multiplicative identity.
    fn one() -> (r: Self)
        ensures
            r@ == 1,
            r.fwf(),
    ;

    /// The sum of two elements.
    fn add(lhs: &Self, rhs: &Self) -> (r: Self)
        requires
            lhs.fwf(),
            rhs.fwf(),
        ensures
            r.fwf(),
            r@ == add_f(lhs@, rhs@),
    ;

    /// Adds `rhs` into `self`.
    fn add_assign(&mut self, rhs: &Self)
        requires
            old(self).fwf(),
            rhs.fwf(),
        ensures
            final(self).fwf(),
            final(self)@ == add_f(old(self)@, rhs@),
    ;

    /// The difference of two elements.
    fn sub(lhs: &Self, rhs: &Self) -> (r: Self)
        requires
            lhs.fwf(),
            rhs.fwf(),
        ensures
            r.fwf(),
            r@ == sub_f(lhs@, rhs@),
    ;

    /// The product of two elements.
    fn mul(lhs: &Self, rhs: &Self) -> (r: Self)
        requires
            lhs.fwf(),
            rhs.fwf(),
        ensures
            r.fwf(),
            r@ == mul_f(lhs@, rhs@),
    ;

    /// The multiplicative inverse, absent exactly for zero.
    fn inverse(&self) -> (r: Option<Self>)
        requires
            self.fwf(),
        ensures
            r is Some <==> self@ != 0,
            r matches Some(inv) ==> inv.fwf() && mul_f(self@, inv@) == 1,
    ;
}

impl Field for Fp {
    open spec fn fwf(&self) -> bool {
        self.wf()
    }

    fn zero() -> Fp {
        Fp::zero()
    }

    fn is_zero(&self) -> bool {
        Fp::is_zero(self)
    }

    fn one() -> Fp {
        Fp::one()
    }

    fn add(lhs: &Fp, rhs: &Fp) -> Fp {
        fp_add(lhs, rhs)
    }

    fn add_assign(&mut self, rhs: &Fp) {
        *self = fp_add(self, rhs);
    }

    fn sub(lhs: &Fp, rhs: &Fp) -> Fp {
        fp_sub(lhs, rhs)
    }

    fn mul(lhs: &Fp, rhs: &Fp) -> Fp {
        fp_mul(lhs, rhs)
    }

    fn inverse(&self) -> Option<Fp> {
        fp_inverse(self)
    }
}

/// Generation of field elements from machine integers and bit strings.
pub trait FieldGeneration: Field {
    /// Number of bits of the field's modulus.
    fn modulus_bits() -> usize;

    /// Embeds a machine integer, reduced modulo the field modulus.
    fn from_u64(elem: u64) -> (r: Self)
        ensures
            r.fwf(),
            r@ == elem as nat % modulus(),
    ;

    /// The element whose value is the given big-endian bit string, absent
    /// when the value does not lie below the modulus.
    fn try_from_bits_be(bits: &[bool]) -> (r: Option<Self>)
        requires
            bits@.len() <= 256,
        ensures
            r is Some <==> be_val(bits@) < modulus(),
            r matches Some(f) ==> f.fwf() && f@ == be_val(bits@),
    ;
}

impl FieldGeneration for Fp {
    fn modulus_bits() -> usize {
        255
    }

    fn from_u64(elem: u64) -> (r: Fp) {
        proof {
            vstd::arithmetic::div_mod::lemma_small_mod(elem as nat, modulus());
        }
        Fp::from_u64(elem)
    }

    fn try_from_bits_be(bits: &[bool]) -> (r: Option<Fp>) {
        fp_from_bits_be(bits)
    }
}

/// Relies on `ark_ff` `BigInteger256::from_bits_be` and `from_repr`: the
/// big-endian value of at most 256 bits, accepted exactly when it lies
/// below the modulus.
#[verifier::external_body]
fn fp_from_bits_be(bits: &[bool]) -> (r: Option<Fp>)
    requires
        bits@.len() <= 256,
    ensures
        r is Some <==> be_val(bits@) < modulus(),
        r matches Some(f) ==> f.wf() && f@ == be_val(bits@),
{
    let repr = <ark_ff::BigInteger256 as ark_ff::BigInteger>::from_bits_be(bits);
    match ark_bls12_381::Fr::from_repr(repr) {
        Some(x) => {
            let z = x.into_repr().0;
            Some(Fp { l0: z[0], l1: z[1], l2: z[2], l3: z[3] })
        },
        None => None,
    }
}

} // verus!
