//! The finished configuration that the simulation consumes.

use vstd::prelude::*;

verus! {

/// The playfield, counted in cells, and the number of obstacles to scatter
/// on it at the start of every round.
#[derive(Clone, Copy, Debug, PartialEq, Eq, Structural)]
pub struct Config {
    pub grid_width: i32,
    pub grid_height: i32,
    pub random_obstacle_count: u32,
}

/// Number of cells that the snake covers at the start of a round.
pub const INITIAL_SNAKE_LENGTH: u32 = 3;

impl Config {
    /// The grid has at least one column and one row.
    pub open spec fn wf(self) -> bool {
        self.grid_width >= 1 && self.grid_height >= 1
    }

    /// Number of cells on the grid.
    pub open spec fn cell_count(self) -> int {
        self.grid_width * self.grid_height
    }

    /// The obstacles, the starting snake and one food cell fit on the grid
    /// together.
    pub open spec fn is_playable(self) -> bool {
        self.wf() && self.random_obstacle_count < self.cell_count() - INITIAL_SNAKE_LENGTH - 1
    }

    /// Decides whether a round can be set up on this grid.
    pub fn is_valid(&self) -> (ok: bool)
        ensures
            ok == self.is_playable(),
    {
        if self.grid_width < 1 || self.grid_height < 1 {
            return false;
        }
        assert(0 < self.grid_width * self.grid_height <= 0x7fff_ffff * 0x7fff_ffff)
            by (nonlinear_arith)
            requires
                1 <= self.grid_width <= 0x7fff_ffff,
                1 <= self.grid_height <= 0x7fff_ffff,
        ;
        let cells: i64 = (self.grid_width as i64) * (self.grid_height as i64);
        (self.random_obstacle_count as i64) < cells - (INITIAL_SNAKE_LENGTH as i64) - 1
    }
}

/// The default configuration: a grid of 20 by 24 cells with 10 obstacles.
pub fn new() -> (config: Config)
    ensures
        config == (Config { grid_width: 20, grid_height: 24, random_obstacle_count: 10 }),
        config.is_playable(),
{
    Config { grid_width: 20, grid_height: 24, random_obstacle_count: 10 }
}

} // verus!
