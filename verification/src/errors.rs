//! Typed failures reported by the pool operations.

use vstd::prelude::*;

verus! {

/// Every operation either fully succeeds or fails with one of these kinds
/// and leaves the pool and position state untouched.
#[derive(Clone, Copy, Debug, PartialEq, Eq, Structural)]
pub enum ErrorCode {
    /// A borrow exceeded its limit (reserved).
    OverBorrow,
    /// A required amount argument was zero.
    AmountZero,
    /// Minimum-output enforcement failed (reserved).
    Slippage,
    /// An amount violates a precondition, e.g. a balance is too small.
    InvalidAmount,
    /// A math step overflowed or was undefined; no partial result exists.
    ComputationFailure,
}

} // verus!
