use vstd::prelude::*;

verus! {

/// Number of fixed-point steps in one whole unit (one cell, one pixel, one
/// second, or a ratio of one).
pub const UNIT: i64 = 1_000_000;

/// Half of [`UNIT`]: the offset from a cell's corner to its centre.
pub const HALF_UNIT: i64 = 500_000;

/// A point or a displacement, in millionths of a unit on each axis.
#[derive(Clone, Copy, Debug, PartialEq, Eq, Structural)]
pub struct Vector {
    pub x: i64,
    pub y: i64,
}

impl Vector {
    /// The vector with the given fixed-point components.
    pub fn new(x: i64, y: i64) -> (v: Vector)
        ensures
            v.x == x,
            v.y == y,
    {
        Vector { x, y }
    }

    /// The corner of the cell in column `column` and row `row`.
    pub fn from_cells(column: i32, row: i32) -> (v: Vector)
        ensures
            v.x == column * UNIT,
            v.y == row * UNIT,
    {
        Vector { x: (column as i64) * UNIT, y: (row as i64) * UNIT }
    }
}

} // verus!
