use std::collections::HashSet;

use kernal::cell_coordinates::CellCoordinates;
use kernal::cell_state::CellState;
use kernal::delta::Delta;
use kernal::universe::Universe;

fn alive_set(universe: &Universe) -> HashSet<usize> {
    universe.alive_cell_indexes().into_iter().collect()
}

#[test]
fn new_creates_a_valid_universe() {
    let width = 10;
    let height = 11;
    let initial_alive_cells = vec![1, 2];

    let universe = Universe::new(width, height, initial_alive_cells);

    let mut expected_delta = Delta::new();
    expected_delta.add_change(1, CellState::Alive);
    expected_delta.add_change(2, CellState::Alive);

    assert_eq!(universe.width(), width);
    assert_eq!(universe.height(), height);
    assert_eq!(universe.pending_delta(), Some(&expected_delta));
}

#[test]
fn get_cell_state_returns_correct_state() {
    let width = 2;
    let height = 3;
    let initial_alive_cells = vec![1, 2];

    let universe = Universe::new(width, height, initial_alive_cells.clone());

    for y in 0..height {
        for x in 0..width {
            let cell_coordinates = CellCoordinates::new(x, y, width);
            let cell_index = cell_coordinates.cell_index;

            if initial_alive_cells.contains(&cell_index) {
                assert_eq!(universe.get_cell_state(cell_coordinates), CellState::Alive);

                continue;
            }

            assert_eq!(universe.get_cell_state(cell_coordinates), CellState::Dead);
        }
    }
}

#[test]
fn count_alive_neighbours_of_cell_counts_correctly() {
    let width = 5;
    let height = 5;
    let initial_alive_cells = vec![4, 6, 7, 8, 20];

    let universe = Universe::new(width, height, initial_alive_cells);

    // A line of alive cells
    let left_cell_coordinates = CellCoordinates::new(1, 1, width);
    let center_cell_coordinates = CellCoordinates::new(2, 1, width);
    let right_cell_coordinates = CellCoordinates::new(3, 1, width);

    let left_corner_cell_coordinates = CellCoordinates::new(0, 0, width);

    assert_eq!(universe.count_alive_neighbours_of_cell(left_cell_coordinates), 1);
    assert_eq!(universe.count_alive_neighbours_of_cell(center_cell_coordinates), 2);
    assert_eq!(universe.count_alive_neighbours_of_cell(right_cell_coordinates), 2);

    // Index 6, 4 (wrapped), 20 (wrapped) are alive
    assert_eq!(universe.count_alive_neighbours_of_cell(left_corner_cell_coordinates), 3);
}

#[test]
fn blinker_repeats_itself() {
    let width = 5;
    let height = 5;
    let initial_alive_cells = vec![7, 12, 17];

    let mut universe = Universe::new(width, height, initial_alive_cells.clone());

    let mut expected_delta = Delta::new();
    expected_delta.add_change(7, CellState::Alive);
    expected_delta.add_change(12, CellState::Alive);
    expected_delta.add_change(17, CellState::Alive);

    let delta = universe.next_generation();
    assert_eq!(delta, expected_delta);

    println!("Initial universe:");
    println!("{}", universe.render());

    let mut expected_delta = Delta::new();
    expected_delta.add_change(7, CellState::Dead);
    expected_delta.add_change(17, CellState::Dead);
    expected_delta.add_change(11, CellState::Alive);
    expected_delta.add_change(13, CellState::Alive);

    let delta = universe.next_generation();
    assert_eq!(delta, expected_delta);

    assert_eq!(alive_set(&universe), HashSet::from([11, 12, 13]));
    println!("Next generation:");
    println!("{:?}", universe);
    println!("{}", universe.render());

    let mut expected_delta = Delta::new();
    expected_delta.add_change(11, CellState::Dead);
    expected_delta.add_change(13, CellState::Dead);
    expected_delta.add_change(7, CellState::Alive);
    expected_delta.add_change(17, CellState::Alive);

    let delta = universe.next_generation();
    assert_eq!(delta, expected_delta);

    assert_eq!(alive_set(&universe), HashSet::from_iter(initial_alive_cells));
    println!("Next generation:");
    println!("{:?}", universe);
    println!("{}", universe.render());
}

#[test]
fn block_is_still() {
    let width = 5;
    let height = 5;
    let initial_alive_cells = vec![6, 7, 11, 12];

    let mut universe = Universe::new(width, height, initial_alive_cells.clone());

    let mut expected_delta = Delta::new();
    expected_delta.add_change(6, CellState::Alive);
    expected_delta.add_change(7, CellState::Alive);
    expected_delta.add_change(11, CellState::Alive);
    expected_delta.add_change(12, CellState::Alive);

    let delta = universe.next_generation();
    assert_eq!(delta, expected_delta);

    println!("Initial universe:");
    println!("{}", universe.render());

    let expected_delta = Delta::new();
    let delta = universe.next_generation();
    assert_eq!(delta, expected_delta);

    assert_eq!(alive_set(&universe), HashSet::from_iter(initial_alive_cells));
    println!("Next generation:");
    println!("{:?}", universe);
    println!("{}", universe.render());
}

#[test]
fn block_stays_still_over_many_generations() {
    let mut universe = Universe::new(5, 5, vec![6, 7, 11, 12]);
    universe.next_generation();

    for _ in 0..5 {
        let delta = universe.next_generation();
        assert_eq!(delta.number_of_changes(), 0);
        assert_eq!(universe.alive_cell_indexes(), vec![6, 7, 11, 12]);
    }
}

#[test]
fn blinker_changes_four_cells_each_generation() {
    let mut universe = Universe::new(5, 5, vec![7, 12, 17]);
    universe.next_generation();

    for generation in 0..4 {
        let delta = universe.next_generation();
        assert_eq!(delta.number_of_changes(), 4);
        if generation % 2 == 0 {
            assert_eq!(universe.alive_cell_indexes(), vec![11, 12, 13]);
        } else {
            assert_eq!(universe.alive_cell_indexes(), vec![7, 12, 17]);
        }
    }
}

#[test]
fn generation_delta_is_in_row_major_order() {
    let mut universe = Universe::new(5, 5, vec![7, 12, 17]);
    universe.next_generation();

    let delta = universe.next_generation();

    assert_eq!(delta.changed_cell_indexes(), &[7, 11, 13, 17]);
    assert_eq!(
        delta.new_states(),
        &[CellState::Dead, CellState::Alive, CellState::Alive, CellState::Dead]
    );
}

#[test]
fn first_step_hands_out_the_seed_without_evolving() {
    let mut universe = Universe::new(10, 11, vec![1, 2]);

    let delta = universe.next_generation();

    let mut expected_delta = Delta::new();
    expected_delta.add_change(1, CellState::Alive);
    expected_delta.add_change(2, CellState::Alive);
    assert_eq!(delta, expected_delta);
    assert_eq!(delta.number_of_changes(), 2);
    assert_eq!(universe.alive_cell_indexes(), vec![1, 2]);
    assert!(universe.pending_delta().is_none());

    // The lonely pair dies on the first real step.
    let delta = universe.next_generation();
    let mut expected_delta = Delta::new();
    expected_delta.add_change(1, CellState::Dead);
    expected_delta.add_change(2, CellState::Dead);
    assert_eq!(delta, expected_delta);
    assert!(universe.alive_cell_indexes().is_empty());
}

#[test]
fn toggling_twice_replaces_the_pending_delta() {
    let mut universe = Universe::new(5, 5, vec![]);

    universe.toggle_cell(3);
    universe.toggle_cell(3);

    let mut expected_delta = Delta::new();
    expected_delta.add_change(3, CellState::Dead);
    assert_eq!(universe.pending_delta(), Some(&expected_delta));
    assert!(universe.alive_cell_indexes().is_empty());

    let delta = universe.next_generation();
    assert_eq!(delta.number_of_changes(), 1);
    assert_eq!(delta.changed_cell_indexes(), &[3]);
    assert_eq!(delta.new_states(), &[CellState::Dead]);
    assert!(universe.pending_delta().is_none());
}

#[test]
fn toggle_is_applied_at_once_and_reported_by_the_next_step() {
    let mut universe = Universe::new(5, 5, vec![7, 12, 17]);
    universe.next_generation();

    universe.toggle_cell(12);
    assert_eq!(universe.alive_cell_indexes(), vec![7, 17]);

    let delta = universe.next_generation();
    assert_eq!(delta.changed_cell_indexes(), &[12]);
    assert_eq!(delta.new_states(), &[CellState::Dead]);
    assert_eq!(universe.alive_cell_indexes(), vec![7, 17]);

    // Two isolated cells die on the next real step.
    let delta = universe.next_generation();
    assert_eq!(delta.changed_cell_indexes(), &[7, 17]);
    assert!(universe.alive_cell_indexes().is_empty());
}

#[test]
fn toggle_replaces_the_seed_delta() {
    let mut universe = Universe::new(5, 5, vec![1, 2]);

    universe.toggle_cell(20);

    let delta = universe.next_generation();
    assert_eq!(delta.changed_cell_indexes(), &[20]);
    assert_eq!(delta.new_states(), &[CellState::Alive]);
    assert_eq!(universe.alive_cell_indexes(), vec![1, 2, 20]);
}

#[test]
fn new_collapses_repeated_indexes() {
    let universe = Universe::new(5, 5, vec![2, 5, 2]);

    let mut expected_delta = Delta::new();
    expected_delta.add_change(2, CellState::Alive);
    expected_delta.add_change(5, CellState::Alive);
    let pending = universe.pending_delta().unwrap();
    assert_eq!(pending, &expected_delta);
    assert_eq!(pending.changed_cell_indexes(), &[2, 5]);
    assert_eq!(universe.alive_cell_indexes(), vec![2, 5]);
}

#[test]
fn new_without_cells_stages_no_delta() {
    let mut universe = Universe::new(3, 4, vec![]);

    assert!(universe.pending_delta().is_none());
    let delta = universe.next_generation();
    assert_eq!(delta.number_of_changes(), 0);
    assert!(universe.alive_cell_indexes().is_empty());
}

#[test]
fn corner_cell_counts_neighbours_across_both_edges() {
    let universe = Universe::new(4, 4, vec![15, 3, 12, 1, 4, 5]);

    assert_eq!(universe.count_alive_neighbours_of_cell(CellCoordinates::new(0, 0, 4)), 6);

    let universe = Universe::new(3, 3, vec![8]);
    assert_eq!(universe.count_alive_neighbours_of_cell(CellCoordinates::new(0, 0, 3)), 1);
    assert_eq!(universe.count_alive_neighbours_of_cell(CellCoordinates::new(2, 2, 3)), 0);
}

#[test]
fn wraparound_births_a_cell_across_the_edge() {
    // A vertical blinker on the last column turns horizontal across the edge.
    let mut universe = Universe::new(5, 5, vec![9, 14, 19]);
    universe.next_generation();

    let delta = universe.next_generation();
    assert_eq!(delta.changed_cell_indexes(), &[9, 10, 13, 19]);
    assert_eq!(universe.alive_cell_indexes(), vec![10, 13, 14]);
}

#[test]
fn cell_off_the_grid_is_dead() {
    let universe = Universe::new(2, 2, vec![0, 1, 2, 3]);

    let coordinates = CellCoordinates { x: 0, y: 2, cell_index: 4 };
    assert_eq!(universe.get_cell_state(coordinates), CellState::Dead);
}

#[test]
fn render_draws_one_line_per_row() {
    let universe = Universe::new(3, 2, vec![1, 5]);

    assert_eq!(universe.render(), "▒▓▒\n▒▒▓\n");
}
