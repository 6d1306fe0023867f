use rvcore::register::Register;

#[test]
fn mul_low_bits_match_signed_product_u64() {
    // 0xFFFF...F is -1 signed: (-1) * (-1) = 1, low 64 bits 1.
    let a: u64 = u64::MAX;
    let (low, _) = Register::overflowing_mul(a, a);
    assert_eq!(low, 1u64);
    // 2^63 * 2 wraps to 0.
    let (low2, overflow) = Register::overflowing_mul(0x8000_0000_0000_0000u64, 2u64);
    assert_eq!(low2, 0u64);
    assert!(overflow);
}

#[test]
fn mul_low_bits_match_signed_product_u32() {
    let a: u32 = u32::MAX;
    let (low, _) = Register::overflowing_mul(a, a);
    assert_eq!(low, 1u32);
}

#[test]
fn mulh_signed_u64() {
    // (-2^63) * (-2^63) = 2^126; upper 64 bits are 2^62.
    let min: u64 = 0x8000_0000_0000_0000;
    assert_eq!(Register::overflowing_mul_high_signed(min, min), 0x4000_0000_0000_0000u64);
    // (-1) * (-1) = 1; upper bits 0.
    assert_eq!(Register::overflowing_mul_high_signed(u64::MAX, u64::MAX), 0u64);
    // (-1) * 1 = -1; upper bits are the sign extension, all ones.
    assert_eq!(Register::overflowing_mul_high_signed(u64::MAX, 1u64), u64::MAX);
}

#[test]
fn mulh_signed_u32() {
    let min: u32 = 0x8000_0000;
    assert_eq!(Register::overflowing_mul_high_signed(min, min), 0x4000_0000u32);
    assert_eq!(Register::overflowing_mul_high_signed(u32::MAX, 1u32), u32::MAX);
}

#[test]
fn mulhu_u64() {
    // (2^64-1)^2 = 2^128 - 2^65 + 1; upper 64 bits are 2^64 - 2.
    assert_eq!(Register::overflowing_mul_high_unsigned(u64::MAX, u64::MAX), u64::MAX - 1);
    assert_eq!(Register::overflowing_mul_high_unsigned(0u64, u64::MAX), 0u64);
}

#[test]
fn mulhu_u32() {
    assert_eq!(Register::overflowing_mul_high_unsigned(u32::MAX, u32::MAX), u32::MAX - 1);
}

#[test]
fn mulhsu_u64() {
    // (-1) * (2^64-1) = -(2^64-1); upper 64 bits (floor) are -1.
    assert_eq!(Register::overflowing_mul_high_signed_unsigned(u64::MAX, u64::MAX), u64::MAX);
    // 1 * (2^64-1): upper bits 0.
    assert_eq!(Register::overflowing_mul_high_signed_unsigned(1u64, u64::MAX), 0u64);
}

#[test]
fn mulhsu_u32() {
    assert_eq!(Register::overflowing_mul_high_signed_unsigned(u32::MAX, u32::MAX), u32::MAX);
}

#[test]
fn div_rem_signed_rounds_toward_zero_u64() {
    let minus_two = (-2i64) as u64;
    let minus_three = (-3i64) as u64;
    let minus_one = (-1i64) as u64;
    let (q, o) = Register::overflowing_div_signed(7u64, minus_two);
    assert_eq!((q, o), (minus_three, false));
    let (r, o) = Register::overflowing_rem_signed(7u64, minus_two);
    assert_eq!((r, o), (1u64, false));
    let minus_seven = (-7i64) as u64;
    let (q, _) = Register::overflowing_div_signed(minus_seven, 2u64);
    assert_eq!(q, minus_three);
    let (r, _) = Register::overflowing_rem_signed(minus_seven, 2u64);
    assert_eq!(r, minus_one);
}

#[test]
fn div_rem_signed_overflow_flag_u64() {
    let min: u64 = 0x8000_0000_0000_0000;
    let minus_one = (-1i64) as u64;
    let (q, o) = Register::overflowing_div_signed(min, minus_one);
    assert!(o);
    assert_eq!(q, min);
    let (r, o) = Register::overflowing_rem_signed(min, minus_one);
    assert!(o);
    assert_eq!(r, 0u64);
}

#[test]
fn div_rem_signed_overflow_flag_u32() {
    let min: u32 = 0x8000_0000;
    let minus_one = (-1i32) as u32;
    let (q, o) = Register::overflowing_div_signed(min, minus_one);
    assert!(o);
    assert_eq!(q, min);
    let (r, o) = Register::overflowing_rem_signed(min, minus_one);
    assert!(o);
    assert_eq!(r, 0u32);
}

#[test]
fn unsigned_div_rem() {
    assert_eq!(Register::overflowing_div(7u64, 2u64), (3u64, false));
    assert_eq!(Register::overflowing_rem(7u64, 2u64), (1u64, false));
    assert_eq!(Register::overflowing_div(7u32, 2u32), (3u32, false));
    assert_eq!(Register::overflowing_rem(7u32, 2u32), (1u32, false));
}

#[test]
fn constants_and_conversions() {
    assert_eq!(<u64 as Register>::zero(), 0u64);
    assert_eq!(<u64 as Register>::one(), 1u64);
    assert_eq!(<u64 as Register>::min_value(), 0x8000_0000_0000_0000u64);
    assert_eq!(<u64 as Register>::max_value(), u64::MAX);
    assert_eq!(<u32 as Register>::min_value(), 0x8000_0000u32);
    assert_eq!(<u32 as Register>::max_value(), u32::MAX);
    assert_eq!(<u64 as Register>::from_usize(4usize), 4u64);
    assert_eq!(<u32 as Register>::from_usize(usize::MAX), u32::MAX);
    assert_eq!(Register::to_u64(0xdead_beefu32), 0xdead_beefu64);
    assert!(Register::is_zero(0u64));
    assert!(!Register::is_zero(5u32));
}

#[test]
fn wrapping_add_sub() {
    assert_eq!(Register::overflowing_add(u64::MAX, 1u64), (0u64, true));
    assert_eq!(Register::overflowing_add(1u64, 2u64), (3u64, false));
    assert_eq!(Register::overflowing_sub(0u64, 1u64), (u64::MAX, true));
    assert_eq!(Register::overflowing_sub(5u32, 7u32), (u32::MAX - 1, true));
}
