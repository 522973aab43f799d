//! A snake game's rules as a verified state machine: the bordered grid, the
//! snake's body and its movement, food placement, the per-tick transition and
//! the incremental drawing instructions that each tick produces.

pub mod cell;
pub mod grid;
pub mod snake;
pub mod food;
pub mod render;
pub mod game;
pub mod laws;


