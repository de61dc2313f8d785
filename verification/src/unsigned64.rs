//! The narrow unsigned kernel: multiply-divide over `u64` with widening.
//!
//! `mul_div_floor` and `mul_div_ceil` first attempt the product in the
//! native width. When it overflows, both operands are promoted to `u128`,
//! where the product of two `u64` values always fits, and the quotient is
//! computed there; the call fails only if the divisor is zero or the final
//! quotient does not fit back into `u64`. All operands are nonnegative, so
//! truncating division is already the floor and no sign branching occurs.

use vstd::prelude::*;

use crate::fixed_point::FixedPoint;
use crate::rounding::{div_ceil, div_floor, divides, lemma_ceil_floor, lemma_div_shrinks};
use vstd::arithmetic::div_mod::{lemma_fundamental_div_mod, lemma_mod_division_less_than_divisor};
use vstd::arithmetic::mul::lemma_mul_upper_bound;

verus! {

/// Exactly what `mul_div_floor` returns: `None` when the divisor is zero
/// or the floored quotient does not fit in `u64`, the floored quotient
/// otherwise. The product itself never limits the result: the widened
/// intermediate holds any product of two `u64` values.
pub open spec fn mul_div_floor_spec(x: u64, y: u64, z: u64) -> Option<u64> {
    let p = (x as int) * (y as int);
    if z == 0 || div_floor(p, z as int) > u64::MAX {
        None
    } else {
        Some(div_floor(p, z as int) as u64)
    }
}

/// Exactly what `mul_div_ceil` returns, in the same shape as
/// [`mul_div_floor_spec`].
pub open spec fn mul_div_ceil_spec(x: u64, y: u64, z: u64) -> Option<u64> {
    let p = (x as int) * (y as int);
    if z == 0 || div_ceil(p, z as int) > u64::MAX {
        None
    } else {
        Some(div_ceil(p, z as int) as u64)
    }
}

/// The product of two `u64` values always fits in `u128`.
proof fn lemma_wide_product_fits(x: u64, y: u64)
    ensures
        0 <= (x as int) * (y as int) <= u128::MAX,
{
    lemma_mul_upper_bound(x as int, u64::MAX as int, y as int, u64::MAX as int);
    assert((u64::MAX as int) * (u64::MAX as int) <= u128::MAX) by (nonlinear_arith);
    assert(0 <= (x as int) * (y as int)) by (nonlinear_arith)
        requires
            x >= 0,
            y >= 0,
    ;
}

/// Performs floor(x * y / z).
pub fn mul_div_floor(x: u64, y: u64, z: u64) -> (res: Option<u64>)
    ensures
        res == mul_div_floor_spec(x, y, z),
{
    let ghost p = (x as int) * (y as int);
    match x.checked_mul(y) {
        Some(r) => {
            proof {
                if z != 0 {
                    lemma_div_shrinks(p, z as int);
                }
            }
            r.checked_div(z)
        },
        None => {
            // the product needs the doubled width
            proof {
                lemma_wide_product_fits(x, y);
            }
            let wide = match (x as u128).checked_mul(y as u128) {
                Some(v) => v,
                None => {
                    proof {
                        assert(false);
                    }
                    return None;
                },
            };
            let quotient = match wide.checked_div(z as u128) {
                Some(v) => v,
                None => {
                    return None;
                },
            };
            if quotient > u64::MAX as u128 {
                // the widened quotient cannot be narrowed back
                None
            } else {
                Some(quotient as u64)
            }
        },
    }
}

/// Performs ceil(x * y / z).
pub fn mul_div_ceil(x: u64, y: u64, z: u64) -> (res: Option<u64>)
    ensures
        res == mul_div_ceil_spec(x, y, z),
{
    let ghost p = (x as int) * (y as int);
    match x.checked_mul(y) {
        Some(r) => {
            let remainder = match r.checked_rem_euclid(z) {
                Some(v) => v,
                None => {
                    return None;
                },
            };
            proof {
                lemma_mod_division_less_than_divisor(p, z as int);
                lemma_ceil_floor(p, z as int);
                lemma_div_shrinks(p, z as int);
                lemma_fundamental_div_mod(p, z as int);
            }
            let q = r / z;
            proof {
                if remainder > 0 {
                    assert(q <= u64::MAX - 1) by (nonlinear_arith)
                        requires
                            (z as int) >= 1,
                            (q as int) >= 0,
                            (z as int) * (q as int) + (remainder as int) == p,
                            (remainder as int) >= 1,
                            p <= u64::MAX,
                    ;
                }
            }
            let adjust: u64 = if remainder > 0 {
                1
            } else {
                0
            };
            match q.checked_add(adjust) {
                Some(v) => Some(v),
                None => {
                    proof {
                        assert(false);
                    }
                    None
                },
            }
        },
        None => {
            proof {
                lemma_wide_product_fits(x, y);
            }
            let wide = match (x as u128).checked_mul(y as u128) {
                Some(v) => v,
                None => {
                    proof {
                        assert(false);
                    }
                    return None;
                },
            };
            let remainder = match wide.checked_rem_euclid(z as u128) {
                Some(v) => v,
                None => {
                    return None;
                },
            };
            proof {
                lemma_mod_division_less_than_divisor(p, z as int);
                lemma_ceil_floor(p, z as int);
                lemma_fundamental_div_mod(p, z as int);
            }
            let quotient = wide / (z as u128);
            if quotient > u64::MAX as u128 {
                // even the floored quotient cannot be narrowed back
                None
            } else {
                let narrow = quotient as u64;
                let adjust: u64 = if remainder > 0 {
                    1
                } else {
                    0
                };
                match narrow.checked_add(adjust) {
                    Some(v) => Some(v),
                    None => {
                        // the floor fits exactly and the ceiling is one above it
                        None
                    },
                }
            }
        },
    }
}

/// Sandwich bound: a returned floor quotient `q` is the unique integer
/// with `z * q <= x * y < z * (q + 1)`, measured in exact integer
/// arithmetic.
pub proof fn lemma_mul_floor_sandwich(x: u64, y: u64, z: u64, q: u64)
    requires
        mul_div_floor_spec(x, y, z) == Some(q),
    ensures
        z != 0,
        (z as int) * q <= (x as int) * (y as int) < (z as int) * (q + 1),
{
    crate::rounding::lemma_floor_sandwich((x as int) * (y as int), z as int);
}

/// Sandwich bound for the ceiling: a returned ceiling quotient `q` is the
/// unique integer with `z * (q - 1) < x * y <= z * q`.
pub proof fn lemma_mul_ceil_sandwich(x: u64, y: u64, z: u64, q: u64)
    requires
        mul_div_ceil_spec(x, y, z) == Some(q),
    ensures
        z != 0,
        (z as int) * (q - 1) < (x as int) * (y as int) <= (z as int) * q,
{
    let p = (x as int) * (y as int);
    let zz = z as int;
    let f = div_floor(p, zz);
    crate::rounding::lemma_floor_sandwich(p, zz);
    lemma_ceil_floor(p, zz);
    assert(zz * (q - 1) == zz * q - zz && zz * (f + 1) == zz * f + zz) by (nonlinear_arith);
}

/// A successful ceiling implies a successful floor on the same operands
/// (the floor can fit where the ceiling does not, but never the reverse).
pub proof fn lemma_ceil_some_implies_floor_some(x: u64, y: u64, z: u64)
    ensures
        mul_div_ceil_spec(x, y, z) is Some ==> mul_div_floor_spec(x, y, z) is Some,
{
    let p = (x as int) * (y as int);
    if z != 0 {
        lemma_ceil_floor(p, z as int);
    }
}

/// On success the floor result never exceeds the ceiling result, with
/// equality exactly when the divisor divides the product evenly.
pub proof fn lemma_floor_le_ceil(x: u64, y: u64, z: u64, fq: u64, cq: u64)
    requires
        mul_div_floor_spec(x, y, z) == Some(fq),
        mul_div_ceil_spec(x, y, z) == Some(cq),
    ensures
        fq <= cq,
        fq == cq <==> divides(z as int, (x as int) * (y as int)),
{
    lemma_ceil_floor((x as int) * (y as int), z as int);
}

/// Divide-via-multiply identity: the divide-oriented operations are, value
/// for value, the multiply-divide operations with the second and third
/// operands swapped.
pub proof fn lemma_div_via_mul(x: u64, y: u64, z: u64)
    ensures
        x.fixed_div_floor_spec(y, z) == x.fixed_mul_floor_spec(z, y),
        x.fixed_div_ceil_spec(y, z) == x.fixed_mul_ceil_spec(z, y),
{
}

/// Round trip: multiplying by a nonzero value and dividing by the same
/// value gives the operand back, whichever rounding direction is
/// requested. The widened intermediate makes this unconditional: the
/// product of two `u64` values never overflows it.
pub proof fn lemma_round_trip(x: u64, y: u64)
    requires
        y != 0,
    ensures
        mul_div_floor_spec(x, y, y) == Some(x),
        mul_div_ceil_spec(x, y, y) == Some(x),
{
    crate::rounding::lemma_mul_div_cancel(x as int, y as int);
}

/// Zero divisor: a zero denominator (for divide, a zero effective divisor
/// `y`) fails, whatever the other operands are.
pub proof fn lemma_zero_divisor(x: u64, y: u64)
    ensures
        mul_div_floor_spec(x, y, 0) == None::<u64>,
        mul_div_ceil_spec(x, y, 0) == None::<u64>,
        x.fixed_div_floor_spec(0, y) == None::<u64>,
        x.fixed_div_ceil_spec(0, y) == None::<u64>,
{
}

/// No silent wraparound: when the exact quotient leaves the `u64` range,
/// the kernel fails rather than narrowing a wrapped or truncated value.
pub proof fn lemma_no_silent_wraparound(x: u64, y: u64, z: u64)
    requires
        z != 0,
        div_floor((x as int) * (y as int), z as int) > u64::MAX,
    ensures
        mul_div_floor_spec(x, y, z) == None::<u64>,
        mul_div_ceil_spec(x, y, z) == None::<u64>,
{
    lemma_ceil_floor((x as int) * (y as int), z as int);
}

impl FixedPoint for u64 {
    open spec fn fixed_mul_floor_spec(self, y: u64, denominator: u64) -> Option<u64> {
        mul_div_floor_spec(self, y, denominator)
    }

    open spec fn fixed_mul_ceil_spec(self, y: u64, denominator: u64) -> Option<u64> {
        mul_div_ceil_spec(self, y, denominator)
    }

    open spec fn fixed_div_floor_spec(self, y: u64, denominator: u64) -> Option<u64> {
        mul_div_floor_spec(self, denominator, y)
    }

    open spec fn fixed_div_ceil_spec(self, y: u64, denominator: u64) -> Option<u64> {
        mul_div_ceil_spec(self, denominator, y)
    }

    fn fixed_mul_floor(self, y: u64, denominator: u64) -> (res: Option<u64>) {
        mul_div_floor(self, y, denominator)
    }

    fn fixed_mul_ceil(self, y: u64, denominator: u64) -> (res: Option<u64>) {
        mul_div_ceil(self, y, denominator)
    }

    fn fixed_div_floor(self, y: u64, denominator: u64) -> (res: Option<u64>) {
        mul_div_floor(self, denominator, y)
    }

    fn fixed_div_ceil(self, y: u64, denominator: u64) -> (res: Option<u64>) {
        mul_div_ceil(self, denominator, y)
    }
}

} // verus!
