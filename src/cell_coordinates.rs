use vstd::prelude::*;

verus! {

/// The row-major linear index of the cell at column `x` and row `y` of a
/// universe that is `width` cells wide.
pub open spec fn linear_index(x: int, y: int, width: int) -> int {
    x + y * width
}

/// The position of a cell in the universe, with its linear index computed
/// once at construction.
#[derive(Debug, Clone, Copy)]
pub struct CellCoordinates {
    pub x: usize,
    pub y: usize,
    pub cell_index: usize,
}

impl CellCoordinates {
    /// The coordinates of column `x` and row `y` in a universe that is
    /// `universe_width` cells wide.
    pub fn new(x: usize, y: usize, universe_width: usize) -> (r: CellCoordinates)
        requires
            linear_index(x as int, y as int, universe_width as int) <= usize::MAX,
        ensures
            r.x == x,
            r.y == y,
            r.cell_index == linear_index(x as int, y as int, universe_width as int),
    {
        proof {
            assert(0 <= y * universe_width <= x + y * universe_width) by (nonlinear_arith);
        }
        CellCoordinates { x, y, cell_index: x + y * universe_width }
    }
}

} // verus!
