//! The contract shared by the arithmetic kernels.

use vstd::prelude::*;

verus! {

/// Multiply-divide arithmetic over same-width fixed-point operands.
///
/// Every operation is a pure function of its three operands and returns
/// either the exact rounded quotient or `None`; it never returns a value
/// computed through silent integer wraparound. A zero effective divisor
/// always yields `None`. Each implementing type pins the returned value
/// down completely through its four specification functions.
pub trait FixedPoint: Sized {
    /// The value `fixed_mul_floor` returns, as a function of the operands.
    spec fn fixed_mul_floor_spec(self, y: Self, denominator: Self) -> Option<Self>;

    /// The value `fixed_mul_ceil` returns, as a function of the operands.
    spec fn fixed_mul_ceil_spec(self, y: Self, denominator: Self) -> Option<Self>;

    /// The value `fixed_div_floor` returns, as a function of the operands.
    spec fn fixed_div_floor_spec(self, y: Self, denominator: Self) -> Option<Self>;

    /// The value `fixed_div_ceil` returns, as a function of the operands.
    spec fn fixed_div_ceil_spec(self, y: Self, denominator: Self) -> Option<Self>;

    /// Safely calculates floor(x * y / denominator). Returns None if a phantom overflow
    /// occurs or if the denominator is 0.
    fn fixed_mul_floor(self, y: Self, denominator: Self) -> (res: Option<Self>)
        ensures
            res == self.fixed_mul_floor_spec(y, denominator),
    ;

    /// Safely calculates ceil(x * y / denominator). Returns None if a phantom overflow
    /// occurs or if the denominator is 0.
    fn fixed_mul_ceil(self, y: Self, denominator: Self) -> (res: Option<Self>)
        ensures
            res == self.fixed_mul_ceil_spec(y, denominator),
    ;

    /// Safely calculates floor(x * denominator / y). Returns None if a phantom overflow
    /// occurs or if the denominator is 0.
    fn fixed_div_floor(self, y: Self, denominator: Self) -> (res: Option<Self>)
        ensures
            res == self.fixed_div_floor_spec(y, denominator),
    ;

    /// Safely calculates ceil(x * denominator / y). Returns None if a phantom overflow
    /// occurs or if the denominator is 0.
    fn fixed_div_ceil(self, y: Self, denominator: Self) -> (res: Option<Self>)
        ensures
            res == self.fixed_div_ceil_spec(y, denominator),
    ;
}

} // verus!
