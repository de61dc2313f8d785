//! The wide signed kernel: multiply-divide over `i128`.
//!
//! `mul_div_floor` and `mul_div_ceil` compute the product in checked native
//! arithmetic and pick the rounding adjustment by branching on the signs of
//! the product and the divisor: truncating division already rounds the right
//! way for one sign combination, and a one-step correction handles the other.
//!
//! The sign test treats a negative product as a sign that the quotient is
//! negative. When the divisor is negative as well the quotient is actually
//! positive, so for an inexact division with a negative product and a
//! negative divisor the returned value lies one below `floor(p / z)`
//! (respectively one below `ceil(p / z)` for the ceiling variant). The
//! specification functions state the returned value exactly, including
//! this case; callers using a positive denominator always receive the true
//! floor or ceiling.

use vstd::prelude::*;

use crate::fixed_point::FixedPoint;
use crate::rounding::{
    div_ceil, div_floor, div_trunc, divides, lemma_ceil_floor, lemma_div_by_one,
    lemma_div_neg_bounds, lemma_div_shrinks, lemma_floor_sandwich, lemma_mod_neg_divisor,
    lemma_trunc_floor,
};
use vstd::arithmetic::div_mod::{
    lemma_div_is_ordered, lemma_div_is_ordered_by_denominator, lemma_fundamental_div_mod,
    lemma_mod_division_less_than_divisor,
};

verus! {

/// The value the kernel hands back when asked to round `p / z` toward
/// negative infinity, for `z != 0`.
pub open spec fn floor_value(p: int, z: int) -> int
    recommends
        z != 0,
{
    if p < 0 && z < 0 && !divides(z, p) {
        div_floor(p, z) - 1
    } else {
        div_floor(p, z)
    }
}

/// The value the kernel hands back when asked to round `p / z` toward
/// positive infinity, for `z != 0`.
pub open spec fn ceil_value(p: int, z: int) -> int
    recommends
        z != 0,
{
    if p < 0 && z < 0 && !divides(z, p) {
        div_ceil(p, z) - 1
    } else {
        div_ceil(p, z)
    }
}

/// Exactly what `mul_div_floor` returns: `None` when the divisor is zero,
/// when the product `x * y` leaves the `i128` range, or when the rounded
/// quotient itself does; otherwise the rounded quotient.
pub open spec fn mul_div_floor_spec(x: i128, y: i128, z: i128) -> Option<i128> {
    let p = (x as int) * (y as int);
    if z == 0 || p < i128::MIN || p > i128::MAX || floor_value(p, z as int) < i128::MIN
        || floor_value(p, z as int) > i128::MAX {
        None
    } else {
        Some(floor_value(p, z as int) as i128)
    }
}

/// Exactly what `mul_div_ceil` returns, in the same shape as
/// [`mul_div_floor_spec`].
pub open spec fn mul_div_ceil_spec(x: i128, y: i128, z: i128) -> Option<i128> {
    let p = (x as int) * (y as int);
    if z == 0 || p < i128::MIN || p > i128::MAX || ceil_value(p, z as int) < i128::MIN
        || ceil_value(p, z as int) > i128::MAX {
        None
    } else {
        Some(ceil_value(p, z as int) as i128)
    }
}

/// Dividing the most negative product by minus one is the one rounded
/// quotient that leaves the `i128` range even though the product fits.
proof fn lemma_min_by_neg_one()
    ensures
        divides(-1, i128::MIN as int),
        div_floor(i128::MIN as int, -1) == -(i128::MIN as int),
        div_trunc(i128::MIN as int, -1) == -(i128::MIN as int),
        floor_value(i128::MIN as int, -1) == -(i128::MIN as int),
        ceil_value(i128::MIN as int, -1) == -(i128::MIN as int),
{
    lemma_div_by_one(i128::MIN as int);
    lemma_div_by_one(-(i128::MIN as int));
    lemma_ceil_floor(i128::MIN as int, -1);
}

/// For every product within the `i128` range, every rounded quotient stays
/// within that range as well, except for the most negative product divided
/// by minus one.
proof fn lemma_kernel_range(p: int, z: int)
    requires
        z != 0,
        i128::MIN <= p <= i128::MAX,
        !(p == i128::MIN && z == -1),
    ensures
        i128::MIN <= div_floor(p, z) <= i128::MAX,
        i128::MIN <= div_ceil(p, z) <= i128::MAX,
        i128::MIN <= div_trunc(p, z) <= i128::MAX,
        i128::MIN <= floor_value(p, z) <= i128::MAX,
        i128::MIN <= ceil_value(p, z) <= i128::MAX,
{
    lemma_trunc_floor(p, z);
    lemma_ceil_floor(p, z);
    if z > 0 {
        if p >= 0 {
            lemma_div_shrinks(p, z);
            if z == 1 {
                lemma_div_by_one(p);
            } else {
                lemma_div_is_ordered_by_denominator(p, 2, z);
                lemma_div_is_ordered(p, i128::MAX as int, 2);
            }
        } else {
            lemma_div_neg_bounds(p, z);
        }
    } else {
        let w = -z;
        if p >= 0 {
            lemma_div_neg_bounds(-p, w);
        } else {
            lemma_div_shrinks(-p, w);
            if w == 1 {
                lemma_div_by_one(p);
                lemma_div_by_one(-p);
            } else {
                lemma_div_is_ordered_by_denominator(-p, 2, w);
                lemma_div_is_ordered(-p, -(i128::MIN as int), 2);
            }
        }
    }
}

/// Performs floor(x * y / z).
pub fn mul_div_floor(x: i128, y: i128, z: i128) -> (res: Option<i128>)
    ensures
        res == mul_div_floor_spec(x, y, z),
{
    let r = match x.checked_mul(y) {
        Some(v) => v,
        None => {
            return None;
        },
    };
    let ghost p = (x as int) * (y as int);
    if r < 0 || (r > 0 && z < 0) {
        // truncation rounds toward the ceiling here, so step down when inexact
        let remainder = match r.checked_rem_euclid(z) {
            Some(v) => v,
            None => {
                proof {
                    if z != 0 && !(p == i128::MIN && z == -1) {
                        if z > 0 {
                            lemma_mod_division_less_than_divisor(p, z as int);
                        } else {
                            lemma_mod_neg_divisor(p, z as int);
                            lemma_mod_division_less_than_divisor(p, -(z as int));
                        }
                        assert(false);
                    } else if z != 0 {
                        lemma_min_by_neg_one();
                    }
                }
                return None;
            },
        };
        proof {
            if z > 0 {
                lemma_mod_division_less_than_divisor(p, z as int);
            } else {
                lemma_mod_neg_divisor(p, z as int);
                lemma_mod_division_less_than_divisor(p, -(z as int));
            }
            lemma_kernel_range(p, z as int);
            lemma_trunc_floor(p, z as int);
        }
        let q = match r.checked_div(z) {
            Some(v) => v,
            None => {
                proof {
                    assert(false);
                }
                return None;
            },
        };
        let adjust: i128 = if remainder > 0 {
            1
        } else {
            0
        };
        match q.checked_sub(adjust) {
            Some(v) => Some(v),
            None => {
                proof {
                    assert(false);
                }
                None
            },
        }
    } else {
        // truncation already rounds toward the floor for a product and
        // divisor that are not on opposite sides of zero
        proof {
            if z != 0 {
                lemma_kernel_range(p, z as int);
                lemma_trunc_floor(p, z as int);
            }
        }
        r.checked_div(z)
    }
}

/// Performs ceil(x * y / z).
pub fn mul_div_ceil(x: i128, y: i128, z: i128) -> (res: Option<i128>)
    ensures
        res == mul_div_ceil_spec(x, y, z),
{
    let r = match x.checked_mul(y) {
        Some(v) => v,
        None => {
            return None;
        },
    };
    let ghost p = (x as int) * (y as int);
    if r <= 0 || (r > 0 && z < 0) {
        // truncation already rounds toward the ceiling here
        proof {
            if z != 0 && !(p == i128::MIN && z == -1) {
                lemma_kernel_range(p, z as int);
                lemma_trunc_floor(p, z as int);
                lemma_ceil_floor(p, z as int);
            } else if z != 0 {
                lemma_min_by_neg_one();
            }
        }
        r.checked_div(z)
    } else {
        // a positive quotient truncates toward the floor: step up when inexact
        let remainder = match r.checked_rem_euclid(z) {
            Some(v) => v,
            None => {
                return None;
            },
        };
        proof {
            lemma_mod_division_less_than_divisor(p, z as int);
            lemma_kernel_range(p, z as int);
            lemma_trunc_floor(p, z as int);
            lemma_ceil_floor(p, z as int);
            lemma_div_shrinks(p, z as int);
            lemma_fundamental_div_mod(p, z as int);
        }
        let q = match r.checked_div(z) {
            Some(v) => v,
            None => {
                proof {
                    assert(false);
                }
                return None;
            },
        };
        proof {
            if remainder > 0 {
                assert(q <= i128::MAX - 1) by (nonlinear_arith)
                    requires
                        (z as int) >= 1,
                        (q as int) >= 0,
                        (z as int) * (q as int) + (remainder as int) == p,
                        (remainder as int) >= 1,
                        p <= i128::MAX,
                ;
            }
        }
        let adjust: i128 = if remainder > 0 {
            1
        } else {
            0
        };
        match q.checked_add(adjust) {
            Some(v) => Some(v),
            None => {
                proof {
                    assert(false);
                }
                None
            },
        }
    }
}

/// Sandwich bound: a returned floor quotient `q` is the unique integer
/// with `z * q <= x * y < z * (q + 1)` (inequalities flipped for a negative
/// divisor), measured in exact integer arithmetic. Inexact divisions with
/// both the product and the divisor negative are excluded: there the kernel
/// returns one below the true floor.
pub proof fn lemma_mul_floor_sandwich(x: i128, y: i128, z: i128, q: i128)
    requires
        mul_div_floor_spec(x, y, z) == Some(q),
        !((x as int) * (y as int) < 0 && z < 0 && !divides(
            z as int,
            (x as int) * (y as int),
        )),
    ensures
        z != 0,
        z > 0 ==> (z as int) * q <= (x as int) * (y as int) < (z as int) * (q + 1),
        z < 0 ==> (z as int) * q >= (x as int) * (y as int) > (z as int) * (q + 1),
{
    let p = (x as int) * (y as int);
    lemma_floor_sandwich(p, z as int);
}

/// Sandwich bound for the ceiling: a returned ceiling quotient `q` is the
/// unique integer with `z * (q - 1) < x * y <= z * q` (inequalities flipped
/// for a negative divisor). The same inexact both-negative divisions are
/// excluded as for the floor bound.
pub proof fn lemma_mul_ceil_sandwich(x: i128, y: i128, z: i128, q: i128)
    requires
        mul_div_ceil_spec(x, y, z) == Some(q),
        !((x as int) * (y as int) < 0 && z < 0 && !divides(
            z as int,
            (x as int) * (y as int),
        )),
    ensures
        z != 0,
        z > 0 ==> (z as int) * (q - 1) < (x as int) * (y as int) <= (z as int) * q,
        z < 0 ==> (z as int) * (q - 1) > (x as int) * (y as int) >= (z as int) * q,
{
    let p = (x as int) * (y as int);
    let zz = z as int;
    let f = div_floor(p, zz);
    lemma_floor_sandwich(p, zz);
    lemma_ceil_floor(p, zz);
    if divides(zz, p) {
        assert(zz * (q - 1) == zz * q - zz && zz * (q + 1) == zz * q + zz) by (nonlinear_arith);
    } else {
        assert(zz * (f + 1) == zz * f + zz && zz * ((f + 1) - 1) == zz * f) by (nonlinear_arith);
    }
}

/// The floor and ceiling operations fail on exactly the same operands.
pub proof fn lemma_floor_ceil_same_failures(x: i128, y: i128, z: i128)
    ensures
        mul_div_floor_spec(x, y, z) is Some <==> mul_div_ceil_spec(x, y, z) is Some,
{
    let p = (x as int) * (y as int);
    if z != 0 && i128::MIN <= p <= i128::MAX {
        if p == i128::MIN && z == -1 {
            lemma_min_by_neg_one();
        } else {
            lemma_kernel_range(p, z as int);
            lemma_ceil_floor(p, z as int);
        }
    }
}

/// On success the floor result never exceeds the ceiling result, with
/// equality exactly when the divisor divides the product evenly.
pub proof fn lemma_floor_le_ceil(x: i128, y: i128, z: i128, fq: i128, cq: i128)
    requires
        mul_div_floor_spec(x, y, z) == Some(fq),
        mul_div_ceil_spec(x, y, z) == Some(cq),
    ensures
        fq <= cq,
        fq == cq <==> divides(z as int, (x as int) * (y as int)),
{
    let p = (x as int) * (y as int);
    lemma_ceil_floor(p, z as int);
}

/// Divide-via-multiply identity: the divide-oriented operations are, value
/// for value, the multiply-divide operations with the second and third
/// operands swapped.
pub proof fn lemma_div_via_mul(x: i128, y: i128, z: i128)
    ensures
        x.fixed_div_floor_spec(y, z) == x.fixed_mul_floor_spec(z, y),
        x.fixed_div_ceil_spec(y, z) == x.fixed_mul_ceil_spec(z, y),
{
}

/// Round trip: multiplying by a nonzero value and dividing by the same
/// value gives the operand back whenever the intermediate product is
/// representable, whichever rounding direction is requested.
pub proof fn lemma_round_trip(x: i128, y: i128)
    requires
        y != 0,
        i128::MIN <= (x as int) * (y as int) <= i128::MAX,
    ensures
        mul_div_floor_spec(x, y, y) == Some(x),
        mul_div_ceil_spec(x, y, y) == Some(x),
{
    crate::rounding::lemma_mul_div_cancel(x as int, y as int);
}

/// Zero divisor: a zero denominator (for divide, a zero effective divisor
/// `y`) fails, whatever the other operands are.
pub proof fn lemma_zero_divisor(x: i128, y: i128)
    ensures
        mul_div_floor_spec(x, y, 0) == None::<i128>,
        mul_div_ceil_spec(x, y, 0) == None::<i128>,
        x.fixed_div_floor_spec(0, y) == None::<i128>,
        x.fixed_div_ceil_spec(0, y) == None::<i128>,
{
}

/// No silent wraparound: operands whose product leaves the `i128` range
/// always fail, for every divisor and either rounding direction.
pub proof fn lemma_no_silent_wraparound(x: i128, y: i128, z: i128)
    requires
        (x as int) * (y as int) < i128::MIN || (x as int) * (y as int) > i128::MAX,
    ensures
        mul_div_floor_spec(x, y, z) == None::<i128>,
        mul_div_ceil_spec(x, y, z) == None::<i128>,
{
}

impl FixedPoint for i128 {
    open spec fn fixed_mul_floor_spec(self, y: i128, denominator: i128) -> Option<i128> {
        mul_div_floor_spec(self, y, denominator)
    }

    open spec fn fixed_mul_ceil_spec(self, y: i128, denominator: i128) -> Option<i128> {
        mul_div_ceil_spec(self, y, denominator)
    }

    open spec fn fixed_div_floor_spec(self, y: i128, denominator: i128) -> Option<i128> {
        mul_div_floor_spec(self, denominator, y)
    }

    open spec fn fixed_div_ceil_spec(self, y: i128, denominator: i128) -> Option<i128> {
        mul_div_ceil_spec(self, denominator, y)
    }

    fn fixed_mul_floor(self, y: i128, denominator: i128) -> (res: Option<i128>) {
        mul_div_floor(self, y, denominator)
    }

    fn fixed_mul_ceil(self, y: i128, denominator: i128) -> (res: Option<i128>) {
        mul_div_ceil(self, y, denominator)
    }

    fn fixed_div_floor(self, y: i128, denominator: i128) -> (res: Option<i128>) {
        mul_div_floor(self, denominator, y)
    }

    fn fixed_div_ceil(self, y: i128, denominator: i128) -> (res: Option<i128>) {
        mul_div_ceil(self, denominator, y)
    }
}

} // verus!
