//! Field arithmetic, identities and the byte boundary.

use tornado::field::{Field, FieldGeneration, Fp, fp_from_bytes, fp_to_bytes};

#[test]
fn field_identities() {
    let zero = <Fp as Field>::zero();
    let one = <Fp as Field>::one();
    assert!(zero.is_zero());
    assert!(!one.is_zero());
    assert_eq!(Fp::from_u64(0), zero);
    assert_eq!(Fp::from_u64(1), one);
    assert_eq!(Fp::add(&zero, &one), one);
    assert_eq!(Fp::mul(&one, &one), one);
    assert_eq!(Fp::mul(&zero, &one), zero);
}

#[test]
fn field_ring_arithmetic() {
    let three = Fp::from_u64(3);
    let five = Fp::from_u64(5);
    assert_eq!(Fp::add(&three, &five), Fp::from_u64(8));
    assert_eq!(Fp::mul(&three, &five), Fp::from_u64(15));
    assert_eq!(Fp::sub(&five, &three), Fp::from_u64(2));
    // Subtraction wraps modulo the prime: (3 - 5) + 5 == 3 again.
    let wrapped = Fp::sub(&three, &five);
    assert_eq!(Fp::add(&wrapped, &five), three);
    let mut acc = three;
    Fp::add_assign(&mut acc, &five);
    assert_eq!(acc, Fp::from_u64(8));
}

#[test]
fn field_inverse() {
    let zero = <Fp as Field>::zero();
    assert!(Fp::inverse(&zero).is_none());
    let two = Fp::from_u64(2);
    let inv = Fp::inverse(&two).expect("two is invertible");
    assert_eq!(Fp::mul(&two, &inv), <Fp as Field>::one());
}

#[test]
fn field_bytes_round_trip() {
    let x = Fp::from_u64(0xdead_beef_0123_4567);
    let bytes = fp_to_bytes(&x);
    assert_eq!(bytes.len(), 32);
    let mut arr = [0u8; 32];
    arr.copy_from_slice(&bytes);
    assert_eq!(fp_from_bytes(&arr), Some(x));
    // Little-endian: the low eight bytes carry the value.
    assert_eq!(arr[0], 0x67);
    assert_eq!(arr[7], 0xde);
    assert_eq!(arr[8], 0);
}

#[test]
fn field_bytes_reject_non_canonical() {
    // 2^256 - 1 is far above the modulus: not a canonical encoding.
    let arr = [0xffu8; 32];
    assert!(fp_from_bytes(&arr).is_none());
    // The modulus itself, little-endian, is the smallest rejected value.
    let mut modulus = [0u8; 32];
    for (i, limb) in [
        0xffffffff00000001u64,
        0x53bda402fffe5bfe,
        0x3339d80809a1d805,
        0x73eda753299d7d48,
    ]
    .iter()
    .enumerate()
    {
        modulus[8 * i..8 * i + 8].copy_from_slice(&limb.to_le_bytes());
    }
    assert!(fp_from_bytes(&modulus).is_none());
    // One below the modulus decodes.
    modulus[0] = 0x00;
    assert!(fp_from_bytes(&modulus).is_some());
}

#[test]
fn field_from_bits_big_endian() {
    assert_eq!(Fp::try_from_bits_be(&[true, false]), Some(Fp::from_u64(2)));
    assert_eq!(Fp::try_from_bits_be(&[true, false, true, true]), Some(Fp::from_u64(0b1011)));
    assert_eq!(Fp::try_from_bits_be(&[]), Some(Fp::from_u64(0)));
    // 2^255 is above the modulus: rejected.
    let mut bits = [false; 256];
    bits[0] = true;
    assert!(Fp::try_from_bits_be(&bits).is_none());
}

#[test]
fn array_conversion_keeps_elements() {
    let v: Vec<u64> = vec![4, 5, 6];
    let a: [u64; 3] = tornado::util::into_array_unchecked(v);
    assert_eq!(a, [4, 5, 6]);
}
