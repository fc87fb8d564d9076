//! A toroidal Game of Life whose every step, and every manual toggle of a
//! cell, is reported as a delta: the list of cells that changed, in scan
//! order, so that a renderer redraws only those.

pub mod cell_coordinates;
pub mod cell_state;
pub mod delta;
pub mod rules;
pub mod universe;
