use tracer::felt::Felt;

#[test]
fn hex_of_zero() {
    assert_eq!(Felt::from_u64(0).to_hex_string(), "0x0");
}

#[test]
fn hex_of_small_value() {
    assert_eq!(Felt::from_u64(26).to_hex_string(), "0x1a");
    assert_eq!(Felt::from_u64(0xdeadbeef).to_hex_string(), "0xdeadbeef");
}

#[test]
fn hex_at_limb_boundary() {
    let f = Felt::from_limbs(0, 1, 0, 0).unwrap();
    assert_eq!(f.to_hex_string(), "0x10000000000000000");
}

#[test]
fn hex_of_multi_limb_value() {
    let f = Felt::from_limbs(0x123, 0, 0xabc, 0).unwrap();
    let expected = format!("0xabc{}{}", "0000000000000000", "0000000000000123");
    assert_eq!(f.to_hex_string(), expected);
}

#[test]
fn from_limbs_accepts_prime_minus_one() {
    let f = Felt::from_limbs(0, 0, 0, 0x800000000000011).unwrap();
    let expected = format!("0x800000000000011{}", "0".repeat(48));
    assert_eq!(f.to_hex_string(), expected);
}

#[test]
fn from_limbs_rejects_prime_and_above() {
    // The prime itself.
    assert!(Felt::from_limbs(1, 0, 0, 0x800000000000011).is_none());
    // Above the prime's top limb.
    assert!(Felt::from_limbs(0, 0, 0, 0x800000000000012).is_none());
    // A nonzero middle limb beside the prime's top limb.
    assert!(Felt::from_limbs(0, 0, 7, 0x800000000000011).is_none());
}

#[test]
fn low_u64_narrows_to_low_limb() {
    let f = Felt::from_limbs(5, 7, 0, 0).unwrap();
    assert_eq!(f.low_u64(), 5);
    let g = Felt::from_u64(0x480680017fff8000);
    assert_eq!(g.low_u64(), 0x480680017fff8000);
}
