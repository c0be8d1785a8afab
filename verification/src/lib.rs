//! A grid-based snake game core: the playfield arithmetic, the snake's
//! movement, placement of food and obstacles, input handling and the
//! per-tick state machine, with machine-checked contracts.

pub mod config;
pub mod game;
pub mod grid;
pub mod history;
pub mod input;
pub mod placement;
pub mod random;
pub mod snake;
