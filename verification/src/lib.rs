//! Core engine for a four-cell rational sliding/merging puzzle.
//!
//! Four cells hold exact rational values. A player repeatedly moves a cell
//! into an adjacent cell, either swapping the two cells or combining their
//! values with one of the four arithmetic operations, until a single
//! un-moved cell remains. This crate holds the exact-rational arithmetic,
//! the board topology, the mutable stage with undo/redo history, and the
//! randomized answer generator; rendering and input are left to callers.

pub mod answer;
pub mod arith;
pub mod calculator;
pub mod decimal;
pub mod game_state;
pub mod movable_ratio;
pub mod move_dir;
pub mod ratio;
pub mod stage;
