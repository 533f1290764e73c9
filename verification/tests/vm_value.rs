use purple_core::vm_value::{
    add_i32, add_i32_lanes, add_i64, add_i64_lanes, all_non_negative_i32, all_non_negative_i64,
    div_i32, div_i32_lanes, div_i64, div_i64_lanes, mul_i32, mul_i32_lanes, mul_i64, mul_i64_lanes,
    rem_i32, rem_i32_lanes, rem_i64, rem_i64_lanes, sub_i32, sub_i32_lanes, sub_i64, sub_i64_lanes,
    VmError,
};

#[test]
fn addition_is_exact_or_overflows() {
    assert_eq!(add_i32(2, 3), Ok(5));
    assert_eq!(add_i32(-2, -3), Ok(-5));
    assert_eq!(add_i32(i32::MAX, 0), Ok(i32::MAX));
    assert_eq!(add_i32(i32::MAX, 1), Err(VmError::Overflow));
    assert_eq!(add_i32(i32::MIN, -1), Err(VmError::Overflow));
    assert_eq!(add_i64(1 << 40, 1 << 40), Ok(1 << 41));
    assert_eq!(add_i64(i64::MAX, 1), Err(VmError::Overflow));
    assert_eq!(add_i64(i64::MIN, -1), Err(VmError::Overflow));
}

#[test]
fn subtraction_is_exact_or_overflows() {
    assert_eq!(sub_i32(2, 3), Ok(-1));
    assert_eq!(sub_i32(i32::MIN, 1), Err(VmError::Overflow));
    assert_eq!(sub_i32(0, i32::MIN), Err(VmError::Overflow));
    assert_eq!(sub_i32(-1, i32::MIN), Ok(i32::MAX));
    assert_eq!(sub_i64(5, 7), Ok(-2));
    assert_eq!(sub_i64(i64::MAX, -1), Err(VmError::Overflow));
}

#[test]
fn multiplication_is_exact_or_overflows() {
    assert_eq!(mul_i32(-4, 5), Ok(-20));
    assert_eq!(mul_i32(1 << 16, 1 << 15), Err(VmError::Overflow));
    assert_eq!(mul_i32(1 << 16, -(1 << 15)), Ok(i32::MIN));
    assert_eq!(mul_i32(i32::MIN, -1), Err(VmError::Overflow));
    assert_eq!(mul_i64(1 << 31, 1 << 31), Ok(1 << 62));
    assert_eq!(mul_i64(1 << 32, 1 << 31), Err(VmError::Overflow));
}

#[test]
fn division_rounds_towards_zero() {
    assert_eq!(div_i32(7, 2), Ok(3));
    assert_eq!(div_i32(-7, 2), Ok(-3));
    assert_eq!(div_i32(7, -2), Ok(-3));
    assert_eq!(div_i32(-7, -2), Ok(3));
    assert_eq!(div_i32(0, -5), Ok(0));
    assert_eq!(div_i32(i32::MIN, 1), Ok(i32::MIN));
    assert_eq!(div_i64(-9, 4), Ok(-2));
    assert_eq!(div_i64(i64::MAX, -1), Ok(-i64::MAX));
}

#[test]
fn division_by_zero_and_overflow() {
    assert_eq!(div_i32(1, 0), Err(VmError::DivideByZero));
    assert_eq!(div_i32(0, 0), Err(VmError::DivideByZero));
    assert_eq!(div_i32(i32::MIN, -1), Err(VmError::Overflow));
    assert_eq!(div_i64(1, 0), Err(VmError::DivideByZero));
    assert_eq!(div_i64(i64::MIN, -1), Err(VmError::Overflow));
}

#[test]
fn remainder_has_the_sign_of_the_dividend() {
    assert_eq!(rem_i32(7, 2), Ok(1));
    assert_eq!(rem_i32(-7, 2), Ok(-1));
    assert_eq!(rem_i32(7, -2), Ok(1));
    assert_eq!(rem_i32(-7, -2), Ok(-1));
    assert_eq!(rem_i32(6, 3), Ok(0));
    assert_eq!(rem_i64(-9, 4), Ok(-1));
    assert_eq!(rem_i32(1, 0), Err(VmError::DivideByZero));
    assert_eq!(rem_i32(i32::MIN, -1), Err(VmError::Overflow));
    assert_eq!(rem_i64(i64::MIN, -1), Err(VmError::Overflow));
    assert_eq!(rem_i64(5, 0), Err(VmError::DivideByZero));
}

#[test]
fn lanes_are_computed_one_by_one() {
    assert_eq!(add_i32_lanes(&[1, 2], &[10, 20]), Ok([11, 22]));
    assert_eq!(sub_i32_lanes(&[1, 2, 3, 4], &[4, 3, 2, 1]), Ok([-3, -1, 1, 3]));
    assert_eq!(mul_i32_lanes(&[1, -2], &[3, 4]), Ok([3, -8]));
    assert_eq!(div_i32_lanes(&[7, -7], &[2, 2]), Ok([3, -3]));
    assert_eq!(rem_i32_lanes(&[7, -7], &[2, 2]), Ok([1, -1]));
    assert_eq!(add_i64_lanes(&[1, 2], &[10, 20]), Ok([11, 22]));
    assert_eq!(sub_i64_lanes(&[1, 2], &[10, 20]), Ok([-9, -18]));
    assert_eq!(mul_i64_lanes(&[1 << 31; 8], &[2; 8]), Ok([1 << 32; 8]));
    assert_eq!(div_i64_lanes(&[9, -9], &[-4, -4]), Ok([-2, 2]));
    assert_eq!(rem_i64_lanes(&[9, -9], &[-4, -4]), Ok([1, -1]));
}

#[test]
fn first_failing_lane_gives_the_error() {
    assert_eq!(add_i32_lanes(&[1, i32::MAX], &[1, 1]), Err(VmError::Overflow));
    assert_eq!(
        div_i32_lanes(&[1, i32::MIN, 1], &[1, -1, 0]),
        Err(VmError::Overflow)
    );
    assert_eq!(
        div_i32_lanes(&[1, 1, i32::MIN], &[1, 0, -1]),
        Err(VmError::DivideByZero)
    );
    assert_eq!(rem_i64_lanes(&[1, 1], &[1, 0]), Err(VmError::DivideByZero));
    assert_eq!(mul_i64_lanes(&[i64::MAX, 1], &[2, 0]), Err(VmError::Overflow));
    assert_eq!(sub_i64_lanes(&[i64::MIN], &[1]), Err(VmError::Overflow));
}

#[test]
fn no_lanes_no_error() {
    let none32: [i32; 0] = [];
    let none64: [i64; 0] = [];
    assert_eq!(add_i32_lanes(&none32, &none32), Ok(none32));
    assert_eq!(div_i64_lanes(&none64, &none64), Ok(none64));
}

#[test]
fn non_negative_lanes() {
    assert!(all_non_negative_i32(&[]));
    assert!(all_non_negative_i32(&[0, 1, i32::MAX]));
    assert!(!all_non_negative_i32(&[0, -1, 5]));
    assert!(all_non_negative_i64(&[0, 7]));
    assert!(!all_non_negative_i64(&[i64::MIN]));
}
