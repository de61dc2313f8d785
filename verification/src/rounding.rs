//! Integer division with an explicit rounding direction.
//!
//! The specifications of both arithmetic kernels are stated in terms of the
//! mathematical quotients defined here: the quotient rounded toward negative
//! infinity (`div_floor`), toward positive infinity (`div_ceil`), and toward
//! zero (`div_trunc`, the rounding a machine division instruction performs).
//! On `int`, `/` and `%` are the Euclidean operations, so the three roundings
//! are spelled out through them.

use vstd::prelude::*;
use vstd::arithmetic::div_mod::{
    lemma_div_is_ordered_by_denominator, lemma_fundamental_div_mod,
    lemma_fundamental_div_mod_converse_div, lemma_fundamental_div_mod_converse_mod,
    lemma_mod_division_less_than_divisor,
};

verus! {

/// Quotient of `a` by `b`, rounded toward negative infinity.
///
/// For a positive divisor this is the Euclidean quotient itself; for a
/// negative divisor both operands are negated first, which leaves the exact
/// quotient unchanged and makes the divisor positive.
pub open spec fn div_floor(a: int, b: int) -> int
    recommends
        b != 0,
{
    if b > 0 {
        a / b
    } else {
        (-a) / (-b)
    }
}

/// Quotient of `a` by `b`, rounded toward positive infinity.
pub open spec fn div_ceil(a: int, b: int) -> int
    recommends
        b != 0,
{
    -div_floor(-a, b)
}

/// Quotient of `a` by `b`, rounded toward zero, as a machine division
/// computes it.
pub open spec fn div_trunc(a: int, b: int) -> int
    recommends
        b != 0,
{
    if a == 0 {
        0
    } else if a > 0 && b > 0 {
        a / b
    } else if a < 0 && b < 0 {
        ((a * -1) / (b * -1))
    } else if a < 0 {
        ((a * -1) / b) * -1
    } else {
        (a / (b * -1)) * -1
    }
}

/// True when `b` divides `a` evenly: the Euclidean remainder by the
/// divisor's magnitude is zero.
pub open spec fn divides(b: int, a: int) -> bool
    recommends
        b != 0,
{
    a % (if b < 0 {
        -b
    } else {
        b
    }) == 0
}

/// Negating the dividend of a positive divisor turns the floor into the
/// ceiling: the quotient is exactly negated when the division is even and
/// moves one step past zero otherwise.
pub proof fn lemma_div_neg_dividend(a: int, b: int)
    requires
        b > 0,
    ensures
        (-a) / b == if a % b == 0 {
            -(a / b)
        } else {
            -(a / b) - 1
        },
        (-a) % b == if a % b == 0 {
            0int
        } else {
            b - a % b
        },
{
    let q = a / b;
    let r = a % b;
    lemma_fundamental_div_mod(a, b);
    lemma_mod_division_less_than_divisor(a, b);
    if r == 0 {
        assert(-a == (-q) * b + 0) by (nonlinear_arith)
            requires
                a == b * q + r,
                r == 0,
        ;
        lemma_fundamental_div_mod_converse_div(-a, b, -q, 0);
        lemma_fundamental_div_mod_converse_mod(-a, b, -q, 0);
    } else {
        assert(-a == (-q - 1) * b + (b - r)) by (nonlinear_arith)
            requires
                a == b * q + r,
        ;
        lemma_fundamental_div_mod_converse_div(-a, b, -q - 1, b - r);
        lemma_fundamental_div_mod_converse_mod(-a, b, -q - 1, b - r);
    }
}

/// The ceiling quotient equals the floor quotient when the division is
/// even, and lies one above it otherwise.
pub proof fn lemma_ceil_floor(a: int, b: int)
    requires
        b != 0,
    ensures
        div_ceil(a, b) == div_floor(a, b) + if divides(b, a) {
            0int
        } else {
            1int
        },
{
    if b > 0 {
        lemma_div_neg_dividend(a, b);
    } else {
        lemma_div_neg_dividend(a, -b);
        lemma_div_neg_dividend(-a, -b);
    }
}

/// The floor quotient is the unique integer whose multiple by the divisor
/// falls within one divisor-width below (for a positive divisor) or above
/// (for a negative one) the dividend; divisibility means the multiple lands
/// exactly on the dividend.
pub proof fn lemma_floor_sandwich(a: int, b: int)
    requires
        b != 0,
    ensures
        b > 0 ==> b * div_floor(a, b) <= a < b * (div_floor(a, b) + 1),
        b < 0 ==> b * div_floor(a, b) >= a > b * (div_floor(a, b) + 1),
        divides(b, a) <==> b * div_floor(a, b) == a,
{
    if b > 0 {
        let q = a / b;
        let r = a % b;
        lemma_fundamental_div_mod(a, b);
        lemma_mod_division_less_than_divisor(a, b);
        assert(b * q <= a < b * (q + 1) && (r == 0 <==> b * q == a)) by (nonlinear_arith)
            requires
                a == b * q + r,
                0 <= r < b,
        ;
    } else {
        let w = -b;
        let q = (-a) / w;
        let r = (-a) % w;
        lemma_fundamental_div_mod(-a, w);
        lemma_mod_division_less_than_divisor(-a, w);
        lemma_div_neg_dividend(a, w);
        assert(b * q >= a > b * (q + 1) && (a % w == 0 <==> b * q == a)) by (nonlinear_arith)
            requires
                -a == w * q + r,
                0 <= r < w,
                b == -w,
                a % w == if r == 0 {
                    0int
                } else {
                    w - r
                },
        ;
    }
}

/// How truncating division relates to the floor: they agree when the signs
/// of dividend and divisor agree or the division is even; otherwise the
/// truncated quotient is one above the floor.
pub proof fn lemma_trunc_floor(a: int, b: int)
    requires
        b != 0,
    ensures
        div_trunc(a, b) == if ((a < 0 && b > 0) || (a > 0 && b < 0)) && !divides(b, a) {
            div_floor(a, b) + 1
        } else {
            div_floor(a, b)
        },
{
    let w = if b < 0 {
        -b
    } else {
        b
    };
    if a == 0 {
        lemma_fundamental_div_mod(0, w);
        lemma_mod_division_less_than_divisor(0, w);
        lemma_fundamental_div_mod_converse_div(0, w, 0, 0);
        lemma_fundamental_div_mod_converse_mod(0, w, 0, 0);
        assert(0 == 0 * w + 0) by (nonlinear_arith);
    } else if a > 0 && b > 0 {
        // both definitions read `a / b`
    } else if a < 0 && b < 0 {
        assert((a * -1) == -a && (b * -1) == -b);
    } else if a < 0 {
        lemma_div_neg_dividend(-a, b);
        assert((a * -1) == -a);
    } else {
        lemma_div_neg_dividend(a, w);
        assert((b * -1) == -b);
    }
}

/// Dividing a nonnegative dividend by a positive divisor can only shrink
/// it, and a divisor of at least two shrinks it to at most half.
pub proof fn lemma_div_shrinks(a: int, b: int)
    requires
        b > 0,
        a >= 0,
    ensures
        0 <= a / b <= a,
        b >= 2 ==> a / b <= a / 2,
{
    let q = a / b;
    let r = a % b;
    lemma_fundamental_div_mod(a, b);
    lemma_mod_division_less_than_divisor(a, b);
    assert(0 <= q <= a) by (nonlinear_arith)
        requires
            a == b * q + r,
            0 <= r < b,
            a >= 0,
            b > 0,
    ;
    if b >= 2 {
        lemma_div_is_ordered_by_denominator(a, 2, b);
    }
}

/// Dividing a nonpositive dividend by a positive divisor keeps the quotient
/// between the dividend and zero.
pub proof fn lemma_div_neg_bounds(a: int, b: int)
    requires
        b > 0,
        a <= 0,
    ensures
        a <= a / b <= 0,
{
    let q = a / b;
    let r = a % b;
    lemma_fundamental_div_mod(a, b);
    lemma_mod_division_less_than_divisor(a, b);
    assert(a <= q <= 0) by (nonlinear_arith)
        requires
            a == b * q + r,
            0 <= r < b,
            a <= 0,
            b > 0,
    ;
}

/// The Euclidean remainder ignores the divisor's sign.
pub proof fn lemma_mod_neg_divisor(a: int, b: int)
    by (nonlinear_arith)
    requires
        b < 0,
    ensures
        a % b == a % (-b),
{
}

/// Dividing by one changes nothing, and one divides everything.
pub proof fn lemma_div_by_one(a: int)
    ensures
        a / 1 == a,
        a % 1 == 0,
{
    assert(a == a * 1 + 0) by (nonlinear_arith);
    lemma_fundamental_div_mod_converse_div(a, 1, a, 0);
    lemma_fundamental_div_mod_converse_mod(a, 1, a, 0);
}

/// A product divided by one of its factors gives back the other factor,
/// whichever rounding direction is requested.
pub proof fn lemma_mul_div_cancel(x: int, y: int)
    requires
        y != 0,
    ensures
        divides(y, x * y),
        div_floor(x * y, y) == x,
        div_ceil(x * y, y) == x,
{
    let w = if y < 0 {
        -y
    } else {
        y
    };
    assert(x * y == if y > 0 {
        x * w
    } else {
        (-x) * w
    }) by (nonlinear_arith)
        requires
            w == if y < 0 {
                -y
            } else {
                y
            },
    ;
    assert(x * w == w * x + 0 && (-x) * w == w * (-x) + 0 && (-(x * y)) == if y > 0 {
        (-x) * w
    } else {
        x * w
    }) by (nonlinear_arith)
        requires
            x * y == if y > 0 {
                x * w
            } else {
                (-x) * w
            },
    ;
    lemma_fundamental_div_mod_converse_div(x * w, w, x, 0);
    lemma_fundamental_div_mod_converse_mod(x * w, w, x, 0);
    lemma_fundamental_div_mod_converse_div((-x) * w, w, -x, 0);
    lemma_fundamental_div_mod_converse_mod((-x) * w, w, -x, 0);
}

} // verus!
