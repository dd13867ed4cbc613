//! Error kinds for elementwise operations on dynamically sized containers.
//!
//! Operands of different shapes are rejected with an error value rather than
//! silently truncated: truncation would corrupt results instead of merely
//! rejecting bad input.

use vstd::prelude::*;

verus! {

/// Reported when the two operands of an elementwise operation disagree in
/// shape. Statically sized containers cannot reach this: their shapes are
/// enforced by the type system.
#[derive(Clone, Copy, Debug, PartialEq, Eq, Structural)]
pub enum LinError {
    /// Two vectors of different dimension.
    DimensionMismatch { left_dim: usize, right_dim: usize },
    /// Two matrices of different row or column counts.
    ShapeMismatch {
        left_rows: usize,
        left_cols: usize,
        right_rows: usize,
        right_cols: usize,
    },
}

} // verus!
