use vstd::prelude::*;

use crate::cell_state::CellState;

verus! {

/// The changes of one step of the universe, in the order in which they were
/// recorded: for each changed cell its index and its new state.
///
/// The indexes and the states are kept in two parallel vectors, with the
/// number of changes beside them; no cell index appears twice.
#[derive(Debug)]
pub struct Delta {
    changed_cell_indexes: Vec<usize>,
    new_states: Vec<CellState>,
    number_of_changes: usize,
}

/// Whether some change of `changes` is for cell `index`.
pub open spec fn has_index(changes: Seq<(usize, CellState)>, index: usize) -> bool {
    exists|k: int| 0 <= k < changes.len() && (#[trigger] changes[k]).0 == index
}

/// Whether no two changes of `changes` are for the same cell.
pub open spec fn indexes_unique(changes: Seq<(usize, CellState)>) -> bool {
    forall|k: int, l: int|
        0 <= k < changes.len() && 0 <= l < changes.len() && k != l ==> (#[trigger] changes[k]).0
            != (#[trigger] changes[l]).0
}

/// The changes of `changes` as a set of pairs, without their order.
pub open spec fn change_set(changes: Seq<(usize, CellState)>) -> Set<(usize, CellState)> {
    changes.to_set()
}

impl View for Delta {
    type V = Seq<(usize, CellState)>;

    closed spec fn view(&self) -> Seq<(usize, CellState)> {
        Seq::new(
            self.changed_cell_indexes@.len(),
            |k: int| (self.changed_cell_indexes@[k], self.new_states@[k]),
        )
    }
}

impl Delta {
    #[verifier::type_invariant]
    closed spec fn well_formed(self) -> bool {
        &&& self.new_states@.len() == self.changed_cell_indexes@.len()
        &&& self.number_of_changes == self.changed_cell_indexes@.len()
        &&& indexes_unique(self@)
    }

    /// An empty delta.
    pub fn new() -> (r: Delta)
        ensures
            r@ == Seq::<(usize, CellState)>::empty(),
    {
        let r = Delta { changed_cell_indexes: Vec::new(), new_states: Vec::new(), number_of_changes: 0 };
        assert(r@ =~= Seq::<(usize, CellState)>::empty());
        r
    }

    /// Records that cell `cell_index` changed to `new_state`. Recording a
    /// second change for one cell within one delta is a logic error, which
    /// the precondition rules out.
    pub fn add_change(&mut self, cell_index: usize, new_state: CellState)
        requires
            !has_index(old(self)@, cell_index),
        ensures
            final(self)@ == old(self)@.push((cell_index, new_state)),
    {
        let mut current = Delta::new();
        std::mem::swap(self, &mut current);
        let ghost before = current@;
        proof {
            use_type_invariant(&current);
        }
        let Delta { mut changed_cell_indexes, mut new_states, number_of_changes: _ } = current;
        changed_cell_indexes.push(cell_index);
        new_states.push(new_state);
        let count = changed_cell_indexes.len();
        let ghost after = before.push((cell_index, new_state));
        proof {
            assert(Seq::new(
                changed_cell_indexes@.len(),
                |k: int| (changed_cell_indexes@[k], new_states@[k]),
            ) =~= after);
            assert forall|k: int, l: int|
                0 <= k < after.len() && 0 <= l < after.len() && k != l implies (
                #[trigger] after[k]).0 != (#[trigger] after[l]).0 by {
                if k == before.len() {
                    assert(before[l] == after[l]);
                } else if l == before.len() {
                    assert(before[k] == after[k]);
                }
            }
        }
        let updated = Delta {
            changed_cell_indexes,
            new_states,
            number_of_changes: count,
        };
        *self = updated;
    }

    /// The indexes of the changed cells, in the order of recording.
    pub fn changed_cell_indexes(&self) -> (r: &[usize])
        ensures
            r@ == self@.map_values(|c: (usize, CellState)| c.0),
    {
        proof {
            use_type_invariant(self);
        }
        let r = self.changed_cell_indexes.as_slice();
        assert(r@ =~= self@.map_values(|c: (usize, CellState)| c.0));
        r
    }

    /// The new states of the changed cells, aligned with
    /// `changed_cell_indexes`.
    pub fn new_states(&self) -> (r: &[CellState])
        ensures
            r@ == self@.map_values(|c: (usize, CellState)| c.1),
    {
        proof {
            use_type_invariant(self);
        }
        let r = self.new_states.as_slice();
        assert(r@ =~= self@.map_values(|c: (usize, CellState)| c.1));
        r
    }

    /// The number of recorded changes.
    pub fn number_of_changes(&self) -> (r: usize)
        ensures
            r == self@.len(),
    {
        proof {
            use_type_invariant(self);
        }
        self.number_of_changes
    }

    /// Whether every change of `other` is also a change of this delta.
    fn includes_changes_of(&self, other: &Delta) -> (r: bool)
        ensures
            r == change_set(other@).subset_of(change_set(self@)),
    {
        proof {
            use_type_invariant(self);
            use_type_invariant(other);
        }
        let mut j: usize = 0;
        while j < other.changed_cell_indexes.len()
            invariant
                0 <= j <= other@.len(),
                other.changed_cell_indexes@.len() == other@.len(),
                other.new_states@.len() == other@.len(),
                self.changed_cell_indexes@.len() == self@.len(),
                self.new_states@.len() == self@.len(),
                forall|m: int| 0 <= m < j ==> self@.contains(#[trigger] other@[m]),
            decreases other@.len() - j,
        {
            let index = other.changed_cell_indexes[j];
            let state = other.new_states[j];
            let mut found = false;
            let mut k: usize = 0;
            while k < self.changed_cell_indexes.len()
                invariant
                    0 <= k <= self@.len(),
                    self.changed_cell_indexes@.len() == self@.len(),
                    self.new_states@.len() == self@.len(),
                    found ==> self@.contains((index, state)),
                    !found ==> forall|m: int| 0 <= m < k ==> #[trigger] self@[m] != (index, state),
                decreases self@.len() - k,
            {
                if self.changed_cell_indexes[k] == index && self.new_states[k] == state {
                    assert(self@[k as int] == (index, state));
                    found = true;
                }
                k = k + 1;
            }
            if !found {
                assert(other@[j as int] == (index, state));
                assert(change_set(other@).contains((index, state)));
                return false;
            }
            assert(other@[j as int] == (index, state));
            j = j + 1;
        }
        assert(change_set(other@).subset_of(change_set(self@))) by {
            assert forall|c: (usize, CellState)| change_set(other@).contains(c) implies change_set(
                self@,
            ).contains(c) by {
                let m = choose|m: int| 0 <= m < other@.len() && other@[m] == c;
                assert(self@.contains(other@[m]));
            }
        }
        true
    }
}

impl PartialEq for Delta {
    /// Two deltas are equal when they hold the same changes, whatever the
    /// order in which the changes were recorded.
    fn eq(&self, other: &Delta) -> (r: bool) {
        let r = self.number_of_changes() == other.number_of_changes() && self.includes_changes_of(other)
            && other.includes_changes_of(self);
        proof {
            if r {
                assert(change_set(self@) =~= change_set(other@));
            }
        }
        r
    }
}

impl vstd::std_specs::cmp::PartialEqSpecImpl for Delta {
    open spec fn obeys_eq_spec() -> bool {
        true
    }

    open spec fn eq_spec(&self, other: &Delta) -> bool {
        change_set(self@) == change_set(other@) && self@.len() == other@.len()
    }
}

} // verus!
