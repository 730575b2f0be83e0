//! The one failure that building a grid can report.

use vstd::prelude::*;

verus! {

/// A buffer handed to [`crate::Array2D::from_raw`] did not hold exactly
/// `width * height` cells.
#[derive(Debug, Clone, Copy, PartialEq, Eq, Structural)]
pub struct LengthMismatch {
    /// Width of the grid that was asked for.
    pub width: usize,
    /// Height of the grid that was asked for.
    pub height: usize,
    /// Number of cells the buffer held.
    pub len: usize,
}

} // verus!
