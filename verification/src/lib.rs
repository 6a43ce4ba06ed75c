//! Core of a two-player tic-tac-toe game: an immutable-snapshot history of
//! board states with time travel, and a winner evaluator over the eight
//! fixed lines of the 3x3 grid. The rendering layer around it only calls
//! `apply_move` / `jump_to` and reads the derived accessors.

pub mod board;
pub mod machine;
