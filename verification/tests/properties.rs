use fixed_point_math::signed128;
use fixed_point_math::unsigned64;
use fixed_point_math::FixedPoint;
use fixed_point_math::STROOP;

#[test]
fn test_stroop_is_seven_decimal_digits() {
    assert_eq!(STROOP, 10_000_000);
}

#[test]
fn test_signed_kernel_functions_match_trait_methods() {
    assert_eq!(
        signed128::mul_div_floor(1_5391283, 314_1592653, 1_0000001),
        Some(483_5313675)
    );
    assert_eq!(
        signed128::mul_div_ceil(1_5391283, 314_1592653, 1_0000001),
        Some(483_5313676)
    );
}

#[test]
fn test_unsigned_kernel_functions_match_trait_methods() {
    assert_eq!(
        unsigned64::mul_div_floor(18_446_744_073, 2_000_000_000, 1_000_000_000),
        Some(36_893_488_146)
    );
    assert_eq!(
        unsigned64::mul_div_ceil(18_446_744_073, 2_000_000_001, 1_000_000_000),
        Some(36_893_488_165)
    );
}

#[test]
fn test_sandwich_bound_on_scaled_values() {
    // 15391283 * 3141592653 = 48353141593043799; divided by 10000001 the
    // exact quotient lies strictly between floor and floor + 1
    let x: i128 = 1_5391283;
    let y: i128 = 314_1592653;
    let z: i128 = 1_0000001;
    let floor = x.fixed_mul_floor(y, z).unwrap();
    let ceil = x.fixed_mul_ceil(y, z).unwrap();
    let product = x * y;
    assert!(z * floor <= product);
    assert!(product < z * (floor + 1));
    assert!(z * (ceil - 1) < product);
    assert!(product <= z * ceil);
}

#[test]
fn test_floor_le_ceil_and_equality_on_even_division() {
    let x: i128 = 1_5391283;
    let y: i128 = 314_1592653;
    let inexact_floor = x.fixed_mul_floor(y, 1_0000001).unwrap();
    let inexact_ceil = x.fixed_mul_ceil(y, 1_0000001).unwrap();
    assert!(inexact_floor < inexact_ceil);
    assert_eq!(inexact_floor + 1, inexact_ceil);

    // an even division: the divisor divides the product exactly
    let even_floor = 10i128.fixed_mul_floor(35, 7).unwrap();
    let even_ceil = 10i128.fixed_mul_ceil(35, 7).unwrap();
    assert_eq!(even_floor, 50);
    assert_eq!(even_ceil, 50);
}

#[test]
fn test_divide_is_multiply_with_swapped_operands_i128() {
    let x: i128 = 314_1592653;
    let y: i128 = 1_5391280;
    let z: i128 = 1_0000000;
    assert_eq!(x.fixed_div_floor(y, z), x.fixed_mul_floor(z, y));
    assert_eq!(x.fixed_div_ceil(y, z), x.fixed_mul_ceil(z, y));
}

#[test]
fn test_divide_is_multiply_with_swapped_operands_u64() {
    let x: u64 = 314_1592653;
    let y: u64 = 1_5391280;
    let z: u64 = 1_0000000;
    assert_eq!(x.fixed_div_floor(y, z), x.fixed_mul_floor(z, y));
    assert_eq!(x.fixed_div_ceil(y, z), x.fixed_mul_ceil(z, y));
}

#[test]
fn test_round_trip_i128() {
    let values: [i128; 5] = [0, 1, -1, 123_456_789, -170_141_183_460_469_231];
    for x in values {
        assert_eq!(x.fixed_mul_floor(1_0000000, 1_0000000), Some(x));
        assert_eq!(x.fixed_mul_ceil(1_0000000, 1_0000000), Some(x));
        assert_eq!(x.fixed_mul_floor(-3, -3), Some(x));
        assert_eq!(x.fixed_mul_ceil(-3, -3), Some(x));
    }
}

#[test]
fn test_round_trip_u64() {
    // the widened intermediate makes the round trip unconditional for u64
    let values: [u64; 4] = [0, 1, 123_456_789, u64::MAX];
    for x in values {
        assert_eq!(x.fixed_mul_floor(u64::MAX, u64::MAX), Some(x));
        assert_eq!(x.fixed_mul_ceil(u64::MAX, u64::MAX), Some(x));
    }
}

#[test]
fn test_zero_divisor_always_fails() {
    assert_eq!(5i128.fixed_mul_floor(3, 0), None);
    assert_eq!(5i128.fixed_mul_ceil(3, 0), None);
    assert_eq!(5i128.fixed_div_floor(0, 3), None);
    assert_eq!(5i128.fixed_div_ceil(0, 3), None);
    assert_eq!(0i128.fixed_mul_floor(0, 0), None);
    assert_eq!(5u64.fixed_mul_floor(3, 0), None);
    assert_eq!(5u64.fixed_mul_ceil(3, 0), None);
    assert_eq!(5u64.fixed_div_floor(0, 3), None);
    assert_eq!(5u64.fixed_div_ceil(0, 3), None);
    assert_eq!(0u64.fixed_mul_floor(0, 0), None);
}

#[test]
fn test_product_overflow_never_wraps_i128() {
    assert_eq!(i128::MAX.fixed_mul_floor(2, 1), None);
    assert_eq!(i128::MAX.fixed_mul_ceil(2, 1), None);
    assert_eq!(i128::MIN.fixed_mul_floor(-1, 1), None);
    assert_eq!(i128::MIN.fixed_mul_ceil(-1, 1), None);
}

#[test]
fn test_min_product_by_negative_one_divisor_fails() {
    // the product fits, but its quotient by -1 leaves the i128 range
    assert_eq!(i128::MIN.fixed_mul_floor(1, -1), None);
    assert_eq!(i128::MIN.fixed_mul_ceil(1, -1), None);
    assert_eq!((-1i128).fixed_mul_floor(i128::MIN, -1), None);
}

#[test]
fn test_min_product_by_one_survives() {
    assert_eq!(i128::MIN.fixed_mul_floor(1, 1), Some(i128::MIN));
    assert_eq!(i128::MIN.fixed_mul_ceil(1, 1), Some(i128::MIN));
}

#[test]
fn test_negative_product_negative_divisor_documented_rounding() {
    // with both the product and the divisor negative the kernel's sign
    // branch applies the floor adjustment to an already-floored quotient:
    // -7 / -2 has floor 3 and ceiling 4, and the kernel returns 2 and 3
    assert_eq!((-7i128).fixed_mul_floor(1, -2), Some(2));
    assert_eq!((-7i128).fixed_mul_ceil(1, -2), Some(3));
    // an even division in the same quadrant is exact
    assert_eq!((-8i128).fixed_mul_floor(1, -2), Some(4));
    assert_eq!((-8i128).fixed_mul_ceil(1, -2), Some(4));
}

#[test]
fn test_ceiling_that_leaves_the_narrow_width_fails() {
    // 253921 * 145295143558111 == 2 * u64::MAX + 1: halving it floors to
    // exactly u64::MAX, while the ceiling lies one above the narrow width
    let x: u64 = 253_921;
    let y: u64 = 145_295_143_558_111;
    assert_eq!(x.fixed_mul_floor(y, 2), Some(u64::MAX));
    assert_eq!(x.fixed_mul_ceil(y, 2), None);
}
