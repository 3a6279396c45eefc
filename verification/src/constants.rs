//! The dimensions of the standard game.

use vstd::prelude::*;

verus! {

/// Columns of the standard grid.
pub const WIDTH: usize = 10;

/// Rows of the standard grid.
pub const HEIGHT: usize = 6;

/// Length of the run that wins the standard game.
pub const GOAL: usize = 4;

} // verus!
