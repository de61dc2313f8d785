use fixed_point_math::FixedPoint;

/********** fixed_mul_floor **********/

#[test]
fn i128_test_fixed_mul_floor_rounds_down() {
    let x: i128 = 1_5391283;
    let y: i128 = 314_1592653;
    let denominator: i128 = 1_0000001;

    let result = x.fixed_mul_floor(y, denominator).unwrap();

    assert_eq!(result, 483_5313675)
}

#[test]
fn test_fixed_mul_floor_negative_rounds_down() {
    let x: i128 = -1_5391283;
    let y: i128 = 314_1592653;
    let denominator: i128 = 1_0000001;

    let result = x.fixed_mul_floor(y, denominator).unwrap();

    assert_eq!(result, -483_5313676)
}

#[test]
fn i128_test_fixed_mul_floor_large_number() {
    let x: i128 = 170_141_183_460_469_231_731;
    let y: i128 = 1_000_000_000_000_000_000;
    let denominator: i128 = 1_000_000_000_000_000_000;

    let result = x.fixed_mul_floor(y, denominator).unwrap();

    assert_eq!(result, 170_141_183_460_469_231_731)
}

#[test]
fn test_fixed_mul_floor_phantom_overflow() {
    let x: i128 = 170_141_183_460_469_231_731;
    let y: i128 = 1_000_000_000_000_000_001;
    let denominator: i128 = 1_000_000_000_000_000_000;

    let result = x.fixed_mul_floor(y, denominator);

    assert_eq!(None, result);
}

/********** fixed_mul_ceil **********/

#[test]
fn i128_test_fixed_mul_ceil_rounds_up() {
    let x: i128 = 1_5391283;
    let y: i128 = 314_1592653;
    let denominator: i128 = 1_0000001;

    let result = x.fixed_mul_ceil(y, denominator).unwrap();

    assert_eq!(result, 483_5313676)
}

#[test]
fn test_fixed_mul_ceil_negative_rounds_up() {
    let x: i128 = -1_5391283;
    let y: i128 = 314_1592653;
    let denominator: i128 = 1_0000001;

    let result = x.fixed_mul_ceil(y, denominator).unwrap();

    assert_eq!(result, -483_5313675)
}

#[test]
fn i128_test_fixed_mul_ceil_large_number() {
    let x: i128 = 170_141_183_460_469_231_731;
    let y: i128 = 1_000_000_000_000_000_000;
    let denominator: i128 = 1_000_000_000_000_000_000;

    let result = x.fixed_mul_ceil(y, denominator).unwrap();

    assert_eq!(result, 170_141_183_460_469_231_731)
}

#[test]
fn test_fixed_mul_ceil_phantom_overflow() {
    let x: i128 = 170_141_183_460_469_231_731;
    let y: i128 = 1_000_000_000_000_000_001;
    let denominator: i128 = 1_000_000_000_000_000_000;

    let result = x.fixed_mul_ceil(y, denominator);

    assert_eq!(None, result);
}

/********** fixed_div_floor **********/

#[test]
fn i128_test_fixed_div_floor_rounds_down() {
    let x: i128 = 314_1592653;
    let y: i128 = 1_5391280;
    let denominator: i128 = 1_0000000;

    let result = x.fixed_div_floor(y, denominator).unwrap();

    assert_eq!(result, 204_1150997)
}

#[test]
fn test_fixed_div_floor_negative_rounds_down() {
    let x: i128 = 314_1592653;
    let y: i128 = -1_5391280;
    let denominator: i128 = 1_0000000;

    let result = x.fixed_div_floor(y, denominator).unwrap();

    assert_eq!(result, -204_1150998)
}

#[test]
fn i128_test_fixed_div_floor_large_number() {
    let x: i128 = 170_141_183_460_469_231_731;
    let y: i128 = 1_000_000_000_000_000_000;
    let denominator: i128 = 1_000_000_000_000_000_000;

    let result = x.fixed_div_floor(y, denominator).unwrap();

    assert_eq!(result, 170_141_183_460_469_231_731)
}

#[test]
fn test_fixed_div_floor_phantom_overflow() {
    let x: i128 = 170_141_183_460_469_231_732;
    let y: i128 = 1_000_000_000_000_000_000;
    let denominator: i128 = 1_000_000_000_000_000_000;

    let result = x.fixed_div_floor(y, denominator);

    assert_eq!(None, result);
}

/********** fixed_div_ceil **********/

#[test]
fn test_fixed_div_ceil_rounds_down() {
    let x: i128 = 314_1592653;
    let y: i128 = 1_5391280;
    let denominator: i128 = 1_0000000;

    let result = x.fixed_div_ceil(y, denominator).unwrap();

    assert_eq!(result, 204_1150998)
}

#[test]
fn test_fixed_div_ceil_negative_rounds_down() {
    let x: i128 = 314_1592653;
    let y: i128 = -1_5391280;
    let denominator: i128 = 1_0000000;

    let result = x.fixed_div_ceil(y, denominator).unwrap();

    assert_eq!(result, -204_1150997)
}

#[test]
fn i128_test_fixed_div_ceil_large_number() {
    let x: i128 = 170_141_183_460_469_231_731;
    let y: i128 = 1_000_000_000_000_000_000;
    let denominator: i128 = 1_000_000_000_000_000_000;

    let result = x.fixed_div_ceil(y, denominator).unwrap();

    assert_eq!(result, 170_141_183_460_469_231_731)
}

#[test]
fn test_fixed_div_ceil_phantom_overflow() {
    let x: i128 = 170_141_183_460_469_231_732;
    let y: i128 = 1_000_000_000_000_000_000;
    let denominator: i128 = 1_000_000_000_000_000_000;

    let result = x.fixed_div_ceil(y, denominator);

    assert_eq!(None, result);
}
