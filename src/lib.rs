//! Conway-style cellular automaton on a bounded grid, with a run/pause
//! control and an exact screen-space projection of grid coordinates.

pub mod rules;
pub mod cell_map;
pub mod grid;
pub mod run_state;
pub mod screen;
pub mod laws;
