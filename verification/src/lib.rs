//! Overflow-safe fixed-point arithmetic over scaled integers.
//!
//! The crate computes `floor(x * y / z)` and `ceil(x * y / z)` (and the
//! divide-oriented duals) over fixed-width integers without floating point
//! and without ever returning a silently wrapped or truncated value: every
//! operation yields either the correct rounded quotient or `None`.
//!
//! Two kernels implement the shared [`FixedPoint`] contract:
//! a wide signed kernel over `i128` and a narrow unsigned kernel over `u64`
//! that falls back to a `u128` intermediate when the native product overflows.

use vstd::prelude::*;

mod fixed_point;
pub mod rounding;
pub mod signed128;
pub mod token;
pub mod unsigned64;

pub use fixed_point::FixedPoint;

verus! {

/// Scale denominator for quantities carrying seven fractional decimal digits.
///
/// Offered for caller convenience only: the kernels work with any denominator.
pub const STROOP: u64 = 1_0000000;

} // verus!
