use vstd::prelude::*;

use crate::cell_coordinates::{linear_index, CellCoordinates};
use crate::cell_state::CellState;
use crate::delta::{has_index, indexes_unique, Delta};
use crate::rules::{
    apply_changes, generation_changes, lemma_generation_changes_give_successor, lemma_index_coordinates, lemma_scan_changes_below, lemma_live_neighbours_wrapped,
    live_neighbours, lives_next, scan_changes, successor, cell_weight,
};

verus! {

/// The abstract state of a universe: its size, its alive cells by row-major
/// index, and the changes staged for the next step, if any.
pub struct UniverseView {
    pub width: nat,
    pub height: nat,
    pub alive: Set<int>,
    pub pending: Option<Seq<(usize, CellState)>>,
}

/// The cells listed in `indexes`, as a set.
pub open spec fn index_set(indexes: Seq<usize>) -> Set<int> {
    Set::new(|i: int| exists|k: int| 0 <= k < indexes.len() && indexes[k] as int == i)
}

/// The changes that bring a blank grid to the cells listed in `indexes`:
/// each listed cell becomes alive, once, in the order of its first mention.
pub open spec fn seed_changes(indexes: Seq<usize>) -> Seq<(usize, CellState)>
    decreases indexes.len(),
{
    if indexes.len() == 0 {
        Seq::empty()
    } else {
        let before = seed_changes(indexes.drop_last());
        if has_index(before, indexes.last()) {
            before
        } else {
            before.push((indexes.last(), CellState::Alive))
        }
    }
}

/// A cell has a seed change exactly when it is listed.
proof fn lemma_seed_changes_cover(indexes: Seq<usize>, index: usize)
    ensures
        has_index(seed_changes(indexes), index) == indexes.contains(index),
    decreases indexes.len(),
{
    if indexes.len() > 0 {
        let rest = indexes.drop_last();
        let last = indexes.last();
        lemma_seed_changes_cover(rest, index);
        let before = seed_changes(rest);
        assert(indexes == rest.push(last));
        assert(indexes.contains(index) == (rest.contains(index) || last == index)) by {
            if indexes.contains(index) && last != index {
                let k = choose|k: int| 0 <= k < indexes.len() && indexes[k] == index;
                assert(rest[k] == index);
            }
            if rest.contains(index) {
                let k = choose|k: int| 0 <= k < rest.len() && rest[k] == index;
                assert(indexes[k] == index);
            }
            if last == index {
                assert(indexes[indexes.len() - 1] == index);
            }
        }
        if !has_index(before, last) {
            let after = before.push((last, CellState::Alive));
            assert(has_index(after, index) == (has_index(before, index) || last == index)) by {
                if has_index(after, index) && last != index {
                    let k = choose|k: int| 0 <= k < after.len() && (#[trigger] after[k]).0 == index;
                    assert(before[k] == after[k]);
                }
                if has_index(before, index) {
                    let k = choose|k: int| 0 <= k < before.len() && (#[trigger] before[k]).0 == index;
                    assert(before[k] == after[k]);
                }
                if last == index {
                    assert(after[before.len() as int].0 == index);
                }
            }
        }
    }
}

/// The alive set `alive` with cell `index` flipped.
pub open spec fn toggled(alive: Set<int>, index: int) -> Set<int> {
    if alive.contains(index) {
        alive.remove(index)
    } else {
        alive.insert(index)
    }
}

/// The delta staged by toggling cell `index` of the alive set `alive`.
pub open spec fn toggle_change(alive: Set<int>, index: usize) -> Seq<(usize, CellState)> {
    seq![(index, CellState::from_bool(!alive.contains(index as int)))]
}

/// Toggling one cell twice restores the alive set, and the delta staged by
/// the second toggle, which replaces the first, records only that the cell
/// is back in its original state.
pub proof fn lemma_toggle_twice(alive: Set<int>, index: usize)
    ensures
        toggled(toggled(alive, index as int), index as int) == alive,
        toggle_change(toggled(alive, index as int), index) == seq![
            (index, CellState::from_bool(alive.contains(index as int))),
        ],
{
    assert(toggled(toggled(alive, index as int), index as int) =~= alive);
}

/// The text of row `y`: the glyph of each of its cells, then a line break.
pub open spec fn row_text(alive: Set<int>, y: int, width: int) -> Seq<char> {
    Seq::new(
        width as nat,
        |x: int| CellState::from_bool(alive.contains(linear_index(x, y, width))).glyph_of(),
    ).push('\n')
}

/// The text of the first `rows` rows, top to bottom.
pub open spec fn grid_text(alive: Set<int>, width: int, rows: nat) -> Seq<char>
    decreases rows,
{
    if rows == 0 {
        Seq::empty()
    } else {
        grid_text(alive, width, (rows - 1) as nat) + row_text(alive, rows - 1, width)
    }
}

/// Relies on std's `FromIterator<&char>` for `String`: the string holds the
/// given characters, in order.
#[verifier::external_body]
fn string_from_chars(chars: &Vec<char>) -> (r: String)
    ensures
        r@ == chars@,
{
    chars.iter().collect()
}

/// A toroidal grid of cells that evolves by the rules of Conway's Game of
/// Life, and reports each change of its cells as a `Delta`.
#[derive(Debug)]
pub struct Universe {
    width: usize,
    height: usize,
    // The state of every cell, in row-major order.
    cells: Vec<CellState>,
    pending_delta: Option<Delta>,
}

impl View for Universe {
    type V = UniverseView;

    closed spec fn view(&self) -> UniverseView {
        UniverseView {
            width: self.width as nat,
            height: self.height as nat,
            alive: Set::new(|i: int| 0 <= i < self.cells@.len() && self.cells@[i] == CellState::Alive),
            pending: match self.pending_delta {
                Some(d) => Some(d@),
                None => None,
            },
        }
    }
}

impl Universe {
    /// The universe has at least one row and one column, and one state for
    /// each of its cells.
    pub closed spec fn wf(self) -> bool {
        &&& self.width >= 1
        &&& self.height >= 1
        &&& self.width * self.height <= usize::MAX
        &&& self.cells@.len() == self.width * self.height
    }

    /// The delta of a generation step of this universe (what
    /// `next_generation` returns when no delta is staged) lists each cell at
    /// most once, and applied to the alive cells it gives exactly their
    /// successor under the rules of Life on the torus.
    pub proof fn lemma_step_delta_gives_successor(self)
        requires
            self.wf(),
        ensures
            apply_changes(
                self@.alive,
                generation_changes(self@.alive, self@.width as int, self@.height as int),
            ) == successor(self@.alive, self@.width as int, self@.height as int),
            indexes_unique(
                generation_changes(self@.alive, self@.width as int, self@.height as int),
            ),
    {
        lemma_generation_changes_give_successor(self@.alive, self.width as int, self.height as int);
    }

    /// A universe of `width` by `height` cells, where the cells listed in
    /// `initial_alive_cell_indexes` are alive and all others dead. A cell
    /// listed twice is alive once. Where any cell is listed, a delta that
    /// records each listed cell as newly alive is staged for the first step.
    pub fn new(width: usize, height: usize, initial_alive_cell_indexes: Vec<usize>) -> (r: Universe)
        requires
            width >= 1,
            height >= 1,
            width * height <= usize::MAX,
            forall|k: int|
                0 <= k < initial_alive_cell_indexes@.len() ==> #[trigger] initial_alive_cell_indexes@[k]
                    < width * height,
        ensures
            r.wf(),
            r@.width == width,
            r@.height == height,
            r@.alive == index_set(initial_alive_cell_indexes@),
            r@.pending == (if initial_alive_cell_indexes@.len() == 0 {
                None
            } else {
                Some(seed_changes(initial_alive_cell_indexes@))
            }),
    {
        let number_of_cells = width * height;
        let mut cells: Vec<CellState> = Vec::new();
        let mut i: usize = 0;
        while i < number_of_cells
            invariant
                i <= number_of_cells,
                cells@.len() == i,
                forall|j: int| 0 <= j < i ==> #[trigger] cells@[j] == CellState::Dead,
            decreases number_of_cells - i,
        {
            cells.push(CellState::Dead);
            i = i + 1;
        }
        let ghost initial = initial_alive_cell_indexes@;
        let mut delta = Delta::new();
        let mut k: usize = 0;
        while k < initial_alive_cell_indexes.len()
            invariant
                initial == initial_alive_cell_indexes@,
                forall|m: int| 0 <= m < initial.len() ==> #[trigger] initial[m] < number_of_cells,
                0 <= k <= initial.len(),
                cells@.len() == number_of_cells,
                forall|j: int|
                    0 <= j < number_of_cells ==> (#[trigger] cells@[j] == CellState::Alive) == initial.take(
                        k as int,
                    ).contains(j as usize),
                delta@ == seed_changes(initial.take(k as int)),
            decreases initial.len() - k,
        {
            let index = initial_alive_cell_indexes[k];
            let ghost seen = initial.take(k as int);
            proof {
                assert(initial.take(k + 1).drop_last() =~= seen);
                lemma_seed_changes_cover(seen, index);
            }
            if cells[index] == CellState::Dead {
                delta.add_change(index, CellState::Alive);
                cells[index] = CellState::Alive;
            }
            proof {
                let next_seen = initial.take(k + 1);
                assert forall|j: int| 0 <= j < number_of_cells implies (#[trigger] cells@[j]
                    == CellState::Alive) == next_seen.contains(j as usize) by {
                    if next_seen.contains(j as usize) && j != index {
                        let m = choose|m: int| 0 <= m < next_seen.len() && next_seen[m] == j as usize;
                        assert(seen[m] == j as usize);
                    }
                    if seen.contains(j as usize) {
                        let m = choose|m: int| 0 <= m < seen.len() && seen[m] == j as usize;
                        assert(next_seen[m] == j as usize);
                    }
                    assert(next_seen[k as int] == index);
                }
            }
            k = k + 1;
        }
        assert(initial.take(k as int) =~= initial);
        let pending_delta = if initial_alive_cell_indexes.len() > 0 {
            Some(delta)
        } else {
            None
        };
        let r = Universe { width, height, cells, pending_delta };
        assert(r@.alive =~= index_set(initial)) by {
            assert forall|i: int| index_set(initial).contains(i) implies r@.alive.contains(i) by {
                let m = choose|m: int| 0 <= m < initial.len() && initial[m] as int == i;
                assert(initial.contains(initial[m]));
            }
            assert forall|i: int| r@.alive.contains(i) implies index_set(initial).contains(i) by {
                assert(initial.contains(i as usize));
            }
        }
        r
    }

    /// Flips the cell at `index` between dead and alive, and stages a delta
    /// with exactly that change, in place of any delta staged before.
    pub fn toggle_cell(&mut self, index: usize)
        requires
            old(self).wf(),
            index < old(self)@.width * old(self)@.height,
        ensures
            final(self).wf(),
            final(self)@.width == old(self)@.width,
            final(self)@.height == old(self)@.height,
            final(self)@.alive == toggled(old(self)@.alive, index as int),
            final(self)@.pending == Some(toggle_change(old(self)@.alive, index)),
    {
        let mut delta = Delta::new();
        let new_state = if self.cells[index] == CellState::Alive {
            CellState::Dead
        } else {
            CellState::Alive
        };
        self.cells[index] = new_state;
        delta.add_change(index, new_state);
        self.pending_delta = Some(delta);
        assert(self@.alive =~= toggled(old(self)@.alive, index as int));
        assert(self@.pending.unwrap() =~= seq![(index, new_state)]);
    }

    /// The number of columns.
    pub fn width(&self) -> (r: usize)
        ensures
            r == self@.width,
    {
        self.width
    }

    /// The number of rows.
    pub fn height(&self) -> (r: usize)
        ensures
            r == self@.height,
    {
        self.height
    }

    /// The delta staged for the next step, if any.
    pub fn pending_delta(&self) -> (r: Option<&Delta>)
        ensures
            match r {
                Some(d) => self@.pending == Some(d@),
                None => self@.pending == None::<Seq<(usize, CellState)>>,
            },
    {
        match &self.pending_delta {
            Some(d) => Some(d),
            None => None,
        }
    }

    /// The indexes of the alive cells, in increasing order.
    pub fn alive_cell_indexes(&self) -> (r: Vec<usize>)
        requires
            self.wf(),
        ensures
            index_set(r@) == self@.alive,
            forall|k: int, l: int| 0 <= k < l < r@.len() ==> r@[k] < r@[l],
    {
        let mut r: Vec<usize> = Vec::new();
        let mut i: usize = 0;
        while i < self.cells.len()
            invariant
                0 <= i <= self.cells@.len(),
                forall|k: int, l: int| 0 <= k < l < r@.len() ==> r@[k] < r@[l],
                forall|k: int| 0 <= k < r@.len() ==> r@[k] < i,
                index_set(r@) == Set::new(|j: int| 0 <= j < i && self.cells@[j] == CellState::Alive),
            decreases self.cells@.len() - i,
        {
            let ghost before = r@;
            if self.cells[i] == CellState::Alive {
                r.push(i);
            }
            proof {
                assert(index_set(r@) =~= Set::new(
                    |j: int| 0 <= j < i + 1 && self.cells@[j] == CellState::Alive,
                )) by {
                    assert forall|j: int| index_set(r@).contains(j) implies 0 <= j < i + 1
                        && self.cells@[j] == CellState::Alive by {
                        let k = choose|k: int| 0 <= k < r@.len() && r@[k] as int == j;
                        if k < before.len() {
                            assert(before[k] == r@[k]);
                            assert(index_set(before).contains(j));
                        }
                    }
                    assert forall|j: int|
                        0 <= j < i + 1 && self.cells@[j] == CellState::Alive implies index_set(
                        r@,
                    ).contains(j) by {
                        if j < i {
                            assert(index_set(before).contains(j));
                            let k = choose|k: int| 0 <= k < before.len() && before[k] as int == j;
                            assert(r@[k] == before[k]);
                        } else {
                            assert(r@[before.len() as int] as int == j);
                        }
                    }
                }
            }
            i = i + 1;
        }
        assert(index_set(r@) =~= self@.alive);
        r
    }

    /// A text picture of the universe for debugging: one line per row, top
    /// to bottom, one glyph per cell.
    pub fn render(&self) -> (r: String)
        requires
            self.wf(),
        ensures
            r@ == grid_text(self@.alive, self@.width as int, self@.height),
    {
        let width = self.width;
        let height = self.height;
        let ghost alive = self@.alive;
        let mut chars: Vec<char> = Vec::new();
        let mut y: usize = 0;
        while y < height
            invariant
                self.wf(),
                self@.alive == alive,
                self.width == width,
                self.height == height,
                0 <= y <= height,
                chars@ == grid_text(alive, width as int, y as nat),
            decreases height - y,
        {
            let ghost done = chars@;
            let mut x: usize = 0;
            while x < width
                invariant
                    self.wf(),
                    self@.alive == alive,
                    self.width == width,
                    self.height == height,
                    0 <= y < height,
                    0 <= x <= width,
                    done == grid_text(alive, width as int, y as nat),
                    chars@ == done + Seq::new(
                        x as nat,
                        |i: int|
                            CellState::from_bool(
                                alive.contains(linear_index(i, y as int, width as int)),
                            ).glyph_of(),
                    ),
                decreases width - x,
            {
                proof {
                    lemma_on_grid(x as int, y as int, width as int, height as int);
                }
                let cell_coordinates = CellCoordinates::new(x, y, width);
                let glyph = self.get_cell_state(cell_coordinates).glyph();
                chars.push(glyph);
                assert(chars@ =~= done + Seq::new(
                    (x + 1) as nat,
                    |i: int|
                        CellState::from_bool(
                            alive.contains(linear_index(i, y as int, width as int)),
                        ).glyph_of(),
                ));
                x = x + 1;
            }
            chars.push('\n');
            assert(chars@ =~= grid_text(alive, width as int, (y + 1) as nat));
            y = y + 1;
        }
        string_from_chars(&chars)
    }

    /// The state of the cell at `coordinates`; a cell off the grid counts as
    /// dead.
    pub fn get_cell_state(&self, coordinates: CellCoordinates) -> (r: CellState)
        requires
            self.wf(),
        ensures
            r == CellState::from_bool(self@.alive.contains(coordinates.cell_index as int)),
    {
        if coordinates.cell_index < self.cells.len() {
            self.cells[coordinates.cell_index]
        } else {
            CellState::Dead
        }
    }

    /// The numeric encoding of the state of the cell at column `x` and row
    /// `y`.
    fn weight_at(&self, x: usize, y: usize) -> (r: u8)
        requires
            self.wf(),
            x < self@.width,
            y < self@.height,
        ensures
            r as int == cell_weight(self@.alive, x as int, y as int, self@.width as int),
            r <= 1,
    {
        proof {
            lemma_on_grid(x as int, y as int, self.width as int, self.height as int);
        }
        let coordinates = CellCoordinates::new(x, y, self.width);
        self.get_cell_state(coordinates).as_u8()
    }

    /// The number of alive cells among the eight neighbours of the cell at
    /// `coordinates`, with both axes wrapping round.
    pub fn count_alive_neighbours_of_cell(&self, coordinates: CellCoordinates) -> (r: u8)
        requires
            self.wf(),
            coordinates.x < self@.width,
            coordinates.y < self@.height,
        ensures
            r as int == live_neighbours(
                self@.alive,
                coordinates.x as int,
                coordinates.y as int,
                self@.width as int,
                self@.height as int,
            ),
    {
        let x = coordinates.x;
        let y = coordinates.y;
        let width = self.width;
        let height = self.height;
        let top = if y == 0 { height - 1 } else { y - 1 };
        let bottom = if y == height - 1 { 0 } else { y + 1 };
        let left = if x == 0 { width - 1 } else { x - 1 };
        let right = if x == width - 1 { 0 } else { x + 1 };
        proof {
            lemma_live_neighbours_wrapped(
                self@.alive,
                x as int,
                y as int,
                width as int,
                height as int,
                left as int,
                right as int,
                top as int,
                bottom as int,
            );
        }
        let mut number_of_neighbours: u8 = 0;
        number_of_neighbours = number_of_neighbours + self.weight_at(left, top);
        number_of_neighbours = number_of_neighbours + self.weight_at(x, top);
        number_of_neighbours = number_of_neighbours + self.weight_at(right, top);
        number_of_neighbours = number_of_neighbours + self.weight_at(left, y);
        number_of_neighbours = number_of_neighbours + self.weight_at(right, y);
        number_of_neighbours = number_of_neighbours + self.weight_at(left, bottom);
        number_of_neighbours = number_of_neighbours + self.weight_at(x, bottom);
        number_of_neighbours = number_of_neighbours + self.weight_at(right, bottom);
        number_of_neighbours
    }

    /// Advances the universe by one step and returns what changed.
    ///
    /// Where a delta is staged (by construction or by a toggle), it is handed
    /// out and cleared, and no generation is computed. Otherwise every cell
    /// is evaluated in row-major order against the current generation, and
    /// the returned delta lists each cell that changed, in that order.
    pub fn next_generation(&mut self) -> (r: Delta)
        requires
            old(self).wf(),
        ensures
            final(self).wf(),
            final(self)@.width == old(self)@.width,
            final(self)@.height == old(self)@.height,
            final(self)@.pending == None::<Seq<(usize, CellState)>>,
            match old(self)@.pending {
                Some(staged) => r@ == staged && final(self)@.alive == old(self)@.alive,
                None => {
                    &&& r@ == generation_changes(
                        old(self)@.alive,
                        old(self)@.width as int,
                        old(self)@.height as int,
                    )
                    &&& final(self)@.alive == successor(
                        old(self)@.alive,
                        old(self)@.width as int,
                        old(self)@.height as int,
                    )
                },
            },
    {
        match self.pending_delta.take() {
            Some(staged) => {
                assert(self@.alive =~= old(self)@.alive);
                return staged;
            },
            None => {},
        }
        let ghost alive = self@.alive;
        let width = self.width;
        let height = self.height;
        let ghost next = successor(alive, width as int, height as int);
        let mut delta = Delta::new();
        let mut new_cells: Vec<CellState> = Vec::new();
        let mut index: usize = 0;
        let mut y: usize = 0;
        while y < height
            invariant
                self.wf(),
                self@.alive == alive,
                next == successor(alive, width as int, height as int),
                self.width == width,
                self.height == height,
                0 <= y <= height,
                index == y * width,
                new_cells@.len() == index,
                forall|i: int|
                    0 <= i < index ==> #[trigger] new_cells@[i] == CellState::from_bool(next.contains(i)),
                delta@ == scan_changes(alive, width as int, height as int, index as nat),
            decreases height - y,
        {
            let mut x: usize = 0;
            while x < width
                invariant
                    self.wf(),
                    self@.alive == alive,
                    next == successor(alive, width as int, height as int),
                next == successor(alive, width as int, height as int),
                    self.width == width,
                    self.height == height,
                    0 <= y < height,
                    0 <= x <= width,
                    index == y * width + x,
                    new_cells@.len() == index,
                    forall|i: int|
                        0 <= i < index ==> #[trigger] new_cells@[i] == CellState::from_bool(
                            next.contains(i),
                        ),
                    delta@ == scan_changes(alive, width as int, height as int, index as nat),
                decreases width - x,
            {
                proof {
                    lemma_on_grid(x as int, y as int, width as int, height as int);
                    lemma_index_coordinates(x as int, y as int, width as int);
                    lemma_scan_changes_below(alive, width as int, height as int, index as nat);
                }
                let cell_coordinates = CellCoordinates::new(x, y, width);
                let number_of_neighbours = self.count_alive_neighbours_of_cell(cell_coordinates);
                let cell_state = self.get_cell_state(cell_coordinates);
                let new_state = next_cell_state(cell_state, number_of_neighbours);
                assert(next.contains(index as int) == lives_next(
                    alive.contains(index as int),
                    number_of_neighbours as int,
                ));
                if new_state != cell_state {
                    delta.add_change(index, new_state);
                }
                new_cells.push(new_state);
                index = index + 1;
                x = x + 1;
            }
            assert(y * width + width == (y + 1) * width) by (nonlinear_arith);
            y = y + 1;
        }
        proof {
            assert(index == width * height) by (nonlinear_arith)
                requires
                    index == y * width,
                    y == height,
            ;
        }
        self.cells = new_cells;
        assert(self@.alive =~= next);
        delta
    }
}

/// The state of a cell in the next generation, given its state now and
/// its number of alive neighbours.
fn next_cell_state(state: CellState, number_of_neighbours: u8) -> (r: CellState)
    ensures
        r == CellState::from_bool(lives_next(state == CellState::Alive, number_of_neighbours as int)),
{
    match state {
        CellState::Alive => if number_of_neighbours == 2 || number_of_neighbours == 3 {
            CellState::Alive
        } else {
            CellState::Dead
        },
        CellState::Dead => if number_of_neighbours == 3 {
            CellState::Alive
        } else {
            CellState::Dead
        },
    }
}

/// A cell on a grid of `width` by `height` cells has a row-major index
/// below `width * height`.
proof fn lemma_on_grid(x: int, y: int, width: int, height: int)
    requires
        0 <= x < width,
        0 <= y < height,
    ensures
        0 <= linear_index(x, y, width) < width * height,
{
    assert(0 <= y * width <= (height - 1) * width) by (nonlinear_arith)
        requires
            0 <= y < height,
            0 <= x < width,
    ;
    assert((height - 1) * width + width == width * height) by (nonlinear_arith);
}

} // verus!
