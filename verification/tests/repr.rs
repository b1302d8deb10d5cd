//! Unit tests for the bit-pattern representation engine, checked against a
//! native 32-bit float's bit pattern as the reference oracle.

use sink::{twos_comp, Sink, SIGN_BIT_LOC};

#[test]
fn zero_literal() {
    assert_eq!(0, Sink::build_literal(0).value);
}

#[test]
fn zero_u32() {
    assert_eq!(0f32.to_bits(), Sink::from_uint(0).value);
}

#[test]
fn one_u32() {
    assert_eq!(1f32.to_bits(), Sink::from_uint(1).value);
}

#[test]
fn two_u32() {
    assert_eq!(2f32.to_bits(), Sink::from_uint(2).value);
}

#[test]
fn zero_s32() {
    assert_eq!(0f32.to_bits(), Sink::from_sint(0).value);
}

#[test]
fn one_s32() {
    assert_eq!(1f32.to_bits(), Sink::from_sint(1).value);
}

#[test]
fn two_s32() {
    assert_eq!(2f32.to_bits(), Sink::from_sint(2).value);
}

#[test]
fn max_u32() {
    assert_eq!(16777215f32.to_bits(), Sink::from_uint(0xFFFFFF).value);
}

#[test]
fn neg_one_s32() {
    assert_eq!((-1f32).to_bits(), Sink::from_sint(-1).value);
}

#[test]
fn neg_two_s32() {
    assert_eq!((-2f32).to_bits(), Sink::from_uint(2).value | SIGN_BIT_LOC);
}

#[test]
fn min_s32() {
    assert_eq!((-16777215f32).to_bits(), Sink::from_sint(-0xFFFFFF).value);
}

#[test]
fn literal_keeps_any_word() {
    assert_eq!(0xDEADBEEF, Sink::build_literal(0xDEADBEEF).value);
    assert_eq!(u32::MAX, Sink::build_literal(u32::MAX).value);
}

#[test]
fn build_packs_normalized() {
    assert_eq!(1f32.to_bits(), Sink::build(0, 0, 0).value);
    assert_eq!(2f32.to_bits(), Sink::build(0, 1, 0).value);
    assert_eq!(0.5f32.to_bits(), Sink::build(0, -1, 0).value);
    assert_eq!((-1f32).to_bits(), Sink::build(0x8000_0000, 0, 0).value);
}

#[test]
fn build_subnormal_sentinel() {
    // The sentinel exponent -126 takes bias 126, encoding the zero
    // exponent field: the smallest subnormal pattern.
    assert_eq!(1, Sink::build(0, -126, 1).value);
    assert_eq!(f32::from_bits(1).to_bits(), Sink::build(0, -126, 1).value);
}

#[test]
fn build_masks_fields() {
    // Only the sign-bit position, the low 8 biased-exponent bits and the
    // low 23 mantissa bits survive packing.
    assert_eq!(1f32.to_bits(), Sink::build(0x7FFF_FFFF, 0, 0x0080_0000).value);
    assert_eq!((200u32 + 127) % 256 << 23, Sink::build(0, 200, 0).value);
}

#[test]
fn nan_patterns_detected() {
    assert!(Sink::create_nan().is_nan());
    assert!(Sink::build_literal(0x7F80_0001).is_nan());
    assert!(Sink::build_literal(0x7FFF_FFFF).is_nan());
    assert!(Sink::build_literal(0xFFC0_0000).is_nan());
}

#[test]
fn infinities_are_not_nan() {
    assert!(!Sink::build_literal(0x7F80_0000).is_nan());
    assert!(!Sink::build_literal(0xFF80_0000).is_nan());
}

#[test]
fn ordinary_patterns_are_not_nan() {
    assert!(!Sink::new().is_nan());
    assert!(!Sink::build_literal(1f32.to_bits()).is_nan());
    assert!(!Sink::from_uint(123456).is_nan());
}

#[test]
fn both_zeros_detected() {
    assert!(Sink::build_literal(0x0000_0000).is_zero());
    assert!(Sink::build_literal(0x8000_0000).is_zero());
    assert!(Sink::new().is_zero());
}

#[test]
fn nonzero_patterns_are_not_zero() {
    assert!(!Sink::build_literal(1).is_zero());
    assert!(!Sink::build_literal(0x0040_0000).is_zero());
    assert!(!Sink::build_literal(0x8000_0001).is_zero());
    assert!(!Sink::from_uint(1).is_zero());
}

#[test]
fn nan_equals_nothing() {
    assert!(Sink::create_nan() != Sink::create_nan());
    let nan = Sink::create_nan();
    assert!(nan != nan);
    assert!(nan != Sink::new());
    assert!(Sink::new() != nan);
}

#[test]
fn equality_is_bit_exact() {
    assert!(Sink::from_uint(5) == Sink::from_uint(5));
    assert!(Sink::from_uint(5) != Sink::from_uint(6));
    assert!(Sink::new() == Sink::new());
    // +0 and -0 are distinct words, so bit-exact equality parts them.
    assert!(Sink::build_literal(0) != Sink::build_literal(0x8000_0000));
}

#[test]
fn round_trip_decodes_exactly() {
    let r = Sink::from_sint(12345);
    let e = (r.value >> 23) & 0xFF;
    let m = r.value & 0x007F_FFFF;
    assert_eq!(0x0080_0000 + m, 12345u32 << (150 - e));
    assert_eq!(r.value & 0x8000_0000, 0);

    let n = Sink::from_sint(-12345);
    let ne = (n.value >> 23) & 0xFF;
    let nm = n.value & 0x007F_FFFF;
    assert_eq!(0x0080_0000 + nm, 12345u32 << (150 - ne));
    assert_ne!(n.value & 0x8000_0000, 0);
}

#[test]
fn conversion_matches_native_float() {
    assert_eq!(3f32.to_bits(), Sink::from_uint(3).value);
    assert_eq!(100f32.to_bits(), Sink::from_uint(100).value);
    assert_eq!(1234567f32.to_bits(), Sink::from_uint(1234567).value);
    assert_eq!((-100f32).to_bits(), Sink::from_sint(-100).value);
}

#[test]
fn out_of_range_degrades_to_nan() {
    assert!(Sink::from_uint(0xFFFFFF * 2 + 1).is_nan());
    assert!(Sink::from_uint(u32::MAX).is_nan());
    assert!(Sink::from_sint(0xFFFFFF * 2 + 1).is_nan());
    assert!(Sink::from_sint(-(0xFFFFFF * 2) - 1).is_nan());
    assert!(Sink::from_sint(i32::MIN).is_nan());
    assert!(!Sink::from_uint(0xFFFFFF * 2).is_nan());
}

#[test]
fn twos_comp_negates() {
    assert_eq!(0, twos_comp(0));
    assert_eq!(u32::MAX, twos_comp(1));
    assert_eq!(1, twos_comp(u32::MAX));
    assert_eq!(0x8000_0000, twos_comp(0x8000_0000));
}
