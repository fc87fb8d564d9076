use vstd::prelude::*;

use vstd::arithmetic::div_mod::lemma_fundamental_div_mod_converse;

use crate::cell_coordinates::linear_index;
use crate::cell_state::CellState;
use crate::delta::indexes_unique;

verus! {

/// The coordinate `v` taken round a torus of size `n`, for `v` between -1
/// and `n`: one step off either edge comes back on the opposite edge.
pub open spec fn wrap(v: int, n: int) -> int {
    (v + n) % n
}

/// 1 if the cell at column `x` and row `y` is in `alive`, else 0.
pub open spec fn cell_weight(alive: Set<int>, x: int, y: int, width: int) -> int {
    CellState::from_bool(alive.contains(linear_index(x, y, width))).encoding()
}

/// 1 if the cell at column `x` and row `y`, each taken round the torus, is
/// in `alive`, else 0.
pub open spec fn alive_weight(alive: Set<int>, x: int, y: int, width: int, height: int) -> int {
    cell_weight(alive, wrap(x, width), wrap(y, height), width)
}

/// The number of alive cells among the eight toroidal neighbours of the
/// cell at column `x` and row `y`.
pub open spec fn live_neighbours(alive: Set<int>, x: int, y: int, width: int, height: int) -> int {
    alive_weight(alive, x - 1, y - 1, width, height) + alive_weight(alive, x, y - 1, width, height)
        + alive_weight(alive, x + 1, y - 1, width, height) + alive_weight(alive, x - 1, y, width, height)
        + alive_weight(alive, x + 1, y, width, height) + alive_weight(alive, x - 1, y + 1, width, height)
        + alive_weight(alive, x, y + 1, width, height) + alive_weight(alive, x + 1, y + 1, width, height)
}

/// Whether a cell is alive in the next generation, given whether it is
/// alive now and how many of its neighbours are.
pub open spec fn lives_next(alive_now: bool, neighbours: int) -> bool {
    if alive_now {
        neighbours == 2 || neighbours == 3
    } else {
        neighbours == 3
    }
}

/// The alive cells of the generation after `alive`, on a torus of
/// `width` by `height` cells.
pub open spec fn successor(alive: Set<int>, width: int, height: int) -> Set<int> {
    Set::new(
        |i: int|
            0 <= i < width * height && lives_next(
                alive.contains(i),
                live_neighbours(alive, i % width, i / width, width, height),
            ),
    )
}

/// The changes of one generation step among the first `n` cells, in
/// row-major scan order: each cell whose state differs between `alive` and
/// its successor, with its new state.
pub open spec fn scan_changes(alive: Set<int>, width: int, height: int, n: nat) -> Seq<(usize, CellState)>
    decreases n,
{
    if n == 0 {
        Seq::empty()
    } else {
        let before = scan_changes(alive, width, height, (n - 1) as nat);
        let i = n - 1;
        let next = successor(alive, width, height).contains(i);
        if next != alive.contains(i) {
            before.push((i as usize, CellState::from_bool(next)))
        } else {
            before
        }
    }
}

/// The changes of one generation step over the whole grid.
pub open spec fn generation_changes(alive: Set<int>, width: int, height: int) -> Seq<(usize, CellState)> {
    scan_changes(alive, width, height, (width * height) as nat)
}

/// The alive set that results from applying `changes` to `alive`, in order.
pub open spec fn apply_changes(alive: Set<int>, changes: Seq<(usize, CellState)>) -> Set<int>
    decreases changes.len(),
{
    if changes.len() == 0 {
        alive
    } else {
        let before = apply_changes(alive, changes.drop_last());
        let (index, state) = changes.last();
        if state == CellState::Alive {
            before.insert(index as int)
        } else {
            before.remove(index as int)
        }
    }
}

/// The neighbour count of the cell at column `x` and row `y`, from the
/// already wrapped columns and rows on each side of it.
pub proof fn lemma_live_neighbours_wrapped(
    alive: Set<int>,
    x: int,
    y: int,
    width: int,
    height: int,
    left: int,
    right: int,
    top: int,
    bottom: int,
)
    requires
        0 <= x < width,
        0 <= y < height,
        left == (if x == 0 { width - 1 } else { x - 1 }),
        right == (if x == width - 1 { 0 } else { x + 1 }),
        top == (if y == 0 { height - 1 } else { y - 1 }),
        bottom == (if y == height - 1 { 0 } else { y + 1 }),
    ensures
        live_neighbours(alive, x, y, width, height) == cell_weight(alive, left, top, width)
            + cell_weight(alive, x, top, width) + cell_weight(alive, right, top, width) + cell_weight(
            alive,
            left,
            y,
            width,
        ) + cell_weight(alive, right, y, width) + cell_weight(alive, left, bottom, width)
            + cell_weight(alive, x, bottom, width) + cell_weight(alive, right, bottom, width),
{
    lemma_wrap(x - 1, width);
    lemma_wrap(x + 1, width);
    lemma_wrap(x, width);
    lemma_wrap(y - 1, height);
    lemma_wrap(y + 1, height);
    lemma_wrap(y, height);
}

/// Stepping off an edge of the torus and back.
pub proof fn lemma_wrap(v: int, n: int)
    requires
        n >= 1,
        -1 <= v <= n,
    ensures
        wrap(v, n) == (if v == -1 {
            n - 1
        } else if v == n {
            0
        } else {
            v
        }),
{
    if v == -1 {
        lemma_fundamental_div_mod_converse(v + n, n, 0, n - 1);
    } else if v == n {
        lemma_fundamental_div_mod_converse(v + n, n, 2, 0);
    } else {
        lemma_fundamental_div_mod_converse(v + n, n, 1, v);
    }
}

/// A row-major index gives back its column and row.
pub proof fn lemma_index_coordinates(x: int, y: int, width: int)
    requires
        0 <= x < width,
    ensures
        linear_index(x, y, width) % width == x,
        linear_index(x, y, width) / width == y,
{
    lemma_fundamental_div_mod_converse(linear_index(x, y, width), width, y, x);
}

/// Every change among the first `n` cells is for a cell below `n`, and
/// the changes come in increasing order of index.
pub proof fn lemma_scan_changes_below(alive: Set<int>, width: int, height: int, n: nat)
    requires
        n <= usize::MAX,
    ensures
        forall|k: int|
            0 <= k < scan_changes(alive, width, height, n).len() ==> (#[trigger] scan_changes(
                alive,
                width,
                height,
                n,
            )[k]).0 < n,
        indexes_unique(scan_changes(alive, width, height, n)),
    decreases n,
{
    if n > 0 {
        lemma_scan_changes_below(alive, width, height, (n - 1) as nat);
    }
}

/// Applying the changes of a scan of the first `n` cells turns those cells
/// into their successor states and leaves every other cell as it was.
proof fn lemma_apply_scan(alive: Set<int>, width: int, height: int, n: nat)
    requires
        n <= usize::MAX,
    ensures
        apply_changes(alive, scan_changes(alive, width, height, n)) == Set::new(
            |i: int|
                if 0 <= i < n {
                    successor(alive, width, height).contains(i)
                } else {
                    alive.contains(i)
                },
        ),
    decreases n,
{
    let mixed = Set::new(
        |i: int|
            if 0 <= i < n {
                successor(alive, width, height).contains(i)
            } else {
                alive.contains(i)
            },
    );
    if n == 0 {
        assert(apply_changes(alive, scan_changes(alive, width, height, n)) =~= mixed);
    } else {
        let m = (n - 1) as nat;
        lemma_apply_scan(alive, width, height, m);
        let before = scan_changes(alive, width, height, m);
        let next = successor(alive, width, height).contains(m as int);
        if next != alive.contains(m as int) {
            let after = before.push((m as usize, CellState::from_bool(next)));
            assert(after.drop_last() =~= before);
        }
        assert(apply_changes(alive, scan_changes(alive, width, height, n)) =~= mixed);
    }
}

/// Applying the changes of a generation step to the alive cells gives
/// exactly the next generation, computed independently by the rules of
/// Life on the torus; no cell is changed twice within the step.
pub proof fn lemma_generation_changes_give_successor(alive: Set<int>, width: int, height: int)
    requires
        width >= 1,
        height >= 1,
        width * height <= usize::MAX,
        forall|i: int| #[trigger] alive.contains(i) ==> 0 <= i < width * height,
    ensures
        apply_changes(alive, generation_changes(alive, width, height)) == successor(alive, width, height),
        indexes_unique(generation_changes(alive, width, height)),
{
    assert(width * height >= 1) by (nonlinear_arith)
        requires
            width >= 1,
            height >= 1,
    ;
    lemma_apply_scan(alive, width, height, (width * height) as nat);
    lemma_scan_changes_below(alive, width, height, (width * height) as nat);
    assert(apply_changes(alive, generation_changes(alive, width, height)) =~= successor(
        alive,
        width,
        height,
    ));
}

} // verus!
