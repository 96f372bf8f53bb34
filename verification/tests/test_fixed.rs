use nrfind::Fix;
use nrfind::RealNum;
use nrfind::BOUND;
use nrfind::SCALE;

#[test]
fn test_from_raw_keeps_in_range_values() {
    assert_eq!(Fix::from_raw(25_600_000).raw, 25_600_000);
    assert_eq!(Fix::from_raw(-1).raw, -1);
    assert_eq!(Fix::from_raw(0).raw, 0);
}

#[test]
fn test_from_raw_saturates() {
    assert_eq!(Fix::from_raw(i128::MAX).raw, BOUND);
    assert_eq!(Fix::from_raw(i128::MIN).raw, -BOUND);
}

#[test]
fn test_from_int_scales_and_saturates() {
    assert_eq!(Fix::from_int(25).raw, 25 * SCALE);
    assert_eq!(Fix::from_int(-3).raw, -3 * SCALE);
    assert_eq!(Fix::from_int(i64::MAX).raw, BOUND);
    assert_eq!(Fix::from_int(i64::MIN).raw, -BOUND);
}

#[test]
fn test_add_and_sub_exact_values() {
    let a = Fix::from_raw(2_500_000); // 2.5
    let b = Fix::from_int(4);
    assert_eq!(a.add(b).raw, 6_500_000);
    assert_eq!(a.sub(b).raw, -1_500_000);
    assert_eq!(b.sub(a).raw, 1_500_000);
}

#[test]
fn test_add_saturates_at_the_bounds() {
    let top = Fix::from_raw(BOUND);
    assert_eq!(top.add(top).raw, BOUND);
    let bottom = Fix::from_raw(-BOUND);
    assert_eq!(bottom.add(bottom).raw, -BOUND);
    assert_eq!(top.add(bottom).raw, 0);
}

#[test]
fn test_mul_exact_values() {
    let a = Fix::from_raw(2_500_000); // 2.5
    let b = Fix::from_int(4);
    assert_eq!(a.mul(b).raw, 10 * SCALE);
    assert_eq!(a.mul(Fix::from_int(-4)).raw, -10 * SCALE);
    assert_eq!(Fix::from_int(0).mul(b).raw, 0);
}

#[test]
fn test_mul_truncates_toward_zero() {
    // 0.000001 * 0.5 is 0.0000005, which truncates to zero.
    assert_eq!(Fix::from_raw(1).mul(Fix::from_raw(500_000)).raw, 0);
    assert_eq!(Fix::from_raw(-1).mul(Fix::from_raw(500_000)).raw, 0);
}

#[test]
fn test_mul_saturates() {
    let big = Fix::from_raw(BOUND);
    assert_eq!(big.mul(big).raw, BOUND);
    assert_eq!(big.mul(Fix::from_raw(-BOUND)).raw, -BOUND);
}

#[test]
fn test_div_exact_values() {
    assert_eq!(Fix::from_int(-7).div(Fix::from_int(2)).raw, -3_500_000);
    assert_eq!(Fix::from_int(7).div(Fix::from_int(2)).raw, 3_500_000);
}

#[test]
fn test_div_truncates_toward_zero() {
    assert_eq!(Fix::from_int(1).div(Fix::from_int(3)).raw, 333_333);
    assert_eq!(Fix::from_int(-1).div(Fix::from_int(3)).raw, -333_333);
}

#[test]
fn test_div_by_zero_saturates() {
    let zero = Fix::from_raw(0);
    assert_eq!(Fix::from_int(1).div(zero).raw, BOUND);
    assert_eq!(Fix::from_int(-1).div(zero).raw, -BOUND);
    assert_eq!(zero.div(zero).raw, 0);
}

#[test]
fn test_abs_exact_values() {
    assert_eq!(Fix::from_raw(-5).abs().raw, 5);
    assert_eq!(Fix::from_raw(5).abs().raw, 5);
    assert_eq!(Fix::from_raw(0).abs().raw, 0);
    assert_eq!(Fix::from_raw(-BOUND).abs().raw, BOUND);
}

#[test]
fn test_le_orders_values() {
    let a = Fix::from_int(-2);
    let b = Fix::from_raw(1);
    assert!(a.le(b));
    assert!(!b.le(a));
    assert!(a.le(a));
}
