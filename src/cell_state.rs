use vstd::prelude::*;

verus! {

/// The state of one cell of the universe.
///
/// Its numeric encoding is fixed: `Dead` is 0 and `Alive` is 1, so the
/// encodings of a cell's neighbours add up to its number of alive neighbours.
#[derive(Debug, Clone, Copy, PartialEq, Eq, Structural)]
pub enum CellState {
    Dead,
    Alive,
}

impl CellState {
    /// The state of a cell that is alive exactly when `alive` holds.
    pub open spec fn from_bool(alive: bool) -> CellState {
        if alive {
            CellState::Alive
        } else {
            CellState::Dead
        }
    }

    /// The numeric encoding of a state.
    pub open spec fn encoding(self) -> int {
        match self {
            CellState::Dead => 0,
            CellState::Alive => 1,
        }
    }

    /// The numeric encoding of this state: 0 for `Dead`, 1 for `Alive`.
    pub fn as_u8(self) -> (r: u8)
        ensures
            r as int == self.encoding(),
    {
        match self {
            CellState::Dead => 0,
            CellState::Alive => 1,
        }
    }

    /// The glyph that shows a state in a text rendering of the universe.
    pub open spec fn glyph_of(self) -> char {
        match self {
            CellState::Alive => '▓',
            CellState::Dead => '▒',
        }
    }

    /// The glyph that shows this state in a text rendering of the universe.
    pub fn glyph(self) -> (r: char)
        ensures
            r == self.glyph_of(),
    {
        match self {
            CellState::Alive => '▓',
            CellState::Dead => '▒',
        }
    }
}

} // verus!
