//! A grid-based snake game core: the snake's movement and collision state
//! machine and the food placement policy, with machine-checked contracts.
//!
//! The board is a square of side `window_size`, cut into cells of side
//! `grid_size`. Every coordinate the library stores is the top-left corner of a
//! cell. Leaving the board on one edge re-enters it on the opposite edge.

pub mod direction;
pub mod food;
pub mod game;
pub mod grid;
pub mod snake;
pub mod sprite;
