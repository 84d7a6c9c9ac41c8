use swipe_governance::math::{
    checked_add, checked_mul, checked_sub, isqrt, isqrt_u128, saturating_add, saturating_mul,
};
use swipe_governance::types::GovernanceError;

#[test]
fn isqrt_u128_max_does_not_panic_and_is_exact() {
    assert_eq!(isqrt_u128(u128::MAX), 18_446_744_073_709_551_615u128);
}

#[test]
fn isqrt_u128_zero_and_small_values() {
    assert_eq!(isqrt_u128(0), 0);
    assert_eq!(isqrt_u128(1), 1);
    assert_eq!(isqrt_u128(2), 1);
    assert_eq!(isqrt_u128(3), 1);
    assert_eq!(isqrt_u128(4), 2);
    assert_eq!(isqrt_u128(99), 9);
    assert_eq!(isqrt_u128(100), 10);
}

#[test]
fn isqrt_i128_boundary_does_not_panic() {
    let result = isqrt(i128::MAX);
    assert!(result > 0);
    assert!(result.checked_mul(result).unwrap() <= i128::MAX);

    assert_eq!(isqrt(0), 0);
    assert_eq!(isqrt(-1), 0);
    assert_eq!(isqrt(i128::MIN), 0);
}

#[test]
fn isqrt_matches_known_values() {
    assert_eq!(isqrt(100), 10);
    assert_eq!(isqrt(10_000), 100);
    assert_eq!(isqrt(u64::MAX as i128), 4_294_967_295);
}

fn samples() -> Vec<u128> {
    let mut all = vec![u128::MAX];
    let mut n: u128 = 1;
    while n < u128::MAX / 7 {
        all.push(n - 1);
        all.push(n);
        all.push(n * n.min(1 << 63));
        n = n * 3 + 1;
        if n > (1 << 62) {
            break;
        }
    }
    for k in 0..1_000u128 {
        all.push(k);
        all.push(u128::MAX - k * 1_000);
    }
    for k in 0..64u32 {
        let root = (1u128 << k) + 5;
        all.push(root * root);
        all.push(root * root - 1);
    }
    all
}

#[test]
fn isqrt_squared_never_exceeds_input() {
    for n in samples() {
        let root = isqrt_u128(n);
        assert!(root.checked_mul(root).unwrap() <= n);
    }
}

#[test]
fn isqrt_is_floor_of_true_root() {
    for n in samples() {
        let next = isqrt_u128(n) + 1;
        match next.checked_mul(next) {
            Some(square) => assert!(square > n),
            None => {}
        }
    }
}

#[test]
fn saturation_and_overflow() {
    assert_eq!(saturating_add(i128::MAX, 1), i128::MAX);
    assert_eq!(saturating_add(i128::MIN, -1), i128::MIN);
    assert_eq!(saturating_add(2, 3), 5);
    assert_eq!(saturating_mul(i128::MAX, 2), i128::MAX);
    assert_eq!(saturating_mul(i128::MIN, 2), i128::MIN);
    assert_eq!(saturating_mul(i128::MIN, -1), i128::MAX);
    assert_eq!(saturating_mul(-4, 5), -20);
    assert_eq!(checked_add(i128::MAX, 1), Err(GovernanceError::ArithmeticOverflow));
    assert_eq!(checked_add(1, 1), Ok(2));
    assert_eq!(checked_sub(i128::MIN, 1), Err(GovernanceError::ArithmeticOverflow));
    assert_eq!(checked_sub(1, 2), Ok(-1));
    assert_eq!(checked_mul(i128::MAX, 2), Err(GovernanceError::ArithmeticOverflow));
    assert_eq!(checked_mul(6, 7), Ok(42));
}

#[test]
fn isqrt_does_not_panic_near_boundaries() {
    for k in 0..2_000u128 {
        assert_eq!(isqrt_u128(u128::MAX - k * 500), u64::MAX as u128);
    }
}

#[test]
fn isqrt_is_monotone_positive_and_bounded() {
    let mut last = 0;
    for n in 1..5_000i128 {
        let root = isqrt(n);
        assert!(1 <= root && root <= n && root >= last);
        last = root;
    }
}
