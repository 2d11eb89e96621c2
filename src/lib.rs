//! A terminal snake game: the grid, the snake, the rules of a round and the
//! cells that a frame paints. The terminal itself stays outside this crate.

pub mod point;
pub mod snake;
pub mod food;
pub mod game;
pub mod render;
