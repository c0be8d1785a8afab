//! Coordinate arithmetic on the toroidal playfield.

use vstd::prelude::*;
use crate::config::Config;
use crate::snake::Node;

verus! {

/// One coordinate after a single-cell move along an axis of `size` cells:
/// leaving the axis below zero enters at the far end, leaving it at `size`
/// or beyond enters at zero.
pub open spec fn wrap_coord(v: int, size: int) -> int {
    if v < 0 {
        size - 1
    } else if v >= size {
        0
    } else {
        v
    }
}

/// Whether `cell` lies on the grid of `config`.
pub open spec fn in_grid(config: Config, cell: Node) -> bool {
    0 <= cell.x < config.grid_width && 0 <= cell.y < config.grid_height
}

/// The cell reached from `cell` by the displacement `(dx, dy)`, wrapped
/// around the edges of the grid.
pub open spec fn moved(cell: Node, dx: int, dy: int, config: Config) -> Node {
    Node {
        x: wrap_coord(cell.x + dx, config.grid_width as int) as i32,
        y: wrap_coord(cell.y + dy, config.grid_height as int) as i32,
    }
}

/// Wraps one coordinate onto an axis of `size` cells.
pub fn wrap_axis(v: i64, size: i32) -> (r: i32)
    requires
        size >= 1,
    ensures
        r == wrap_coord(v as int, size as int),
        0 <= r < size,
{
    if v < 0 {
        size - 1
    } else if v >= size as i64 {
        0
    } else {
        v as i32
    }
}

/// Moves `cell` by `(x_change, y_change)` and wraps the result onto the grid.
pub fn wrap(cell: Node, x_change: i32, y_change: i32, config: Config) -> (r: Node)
    requires
        config.wf(),
    ensures
        r == moved(cell, x_change as int, y_change as int, config),
        in_grid(config, r),
{
    Node {
        x: wrap_axis(cell.x as i64 + x_change as i64, config.grid_width),
        y: wrap_axis(cell.y as i64 + y_change as i64, config.grid_height),
    }
}

/// Stepping off one edge of the grid enters at the opposite edge: right from
/// the last column leads to column 0, left from column 0 to the last column,
/// and likewise down from the last row and up from row 0.
pub proof fn lemma_wrap_around(cell: Node, config: Config)
    requires
        config.wf(),
        in_grid(config, cell),
    ensures
        cell.x == config.grid_width - 1 ==> moved(cell, 1, 0, config).x == 0,
        cell.x == 0 ==> moved(cell, -1, 0, config).x == config.grid_width - 1,
        cell.y == config.grid_height - 1 ==> moved(cell, 0, 1, config).y == 0,
        cell.y == 0 ==> moved(cell, 0, -1, config).y == config.grid_height - 1,
        moved(cell, 1, 0, config).y == cell.y,
        moved(cell, -1, 0, config).y == cell.y,
        moved(cell, 0, 1, config).x == cell.x,
        moved(cell, 0, -1, config).x == cell.x,
{
}

/// Away from the edges a move changes the coordinate by exactly the
/// displacement; on every move the result lies on the grid.
pub proof fn lemma_moved_in_grid(cell: Node, dx: int, dy: int, config: Config)
    requires
        config.wf(),
    ensures
        in_grid(config, moved(cell, dx, dy, config)),
        0 <= cell.x + dx < config.grid_width ==> moved(cell, dx, dy, config).x == cell.x + dx,
        0 <= cell.y + dy < config.grid_height ==> moved(cell, dx, dy, config).y == cell.y + dy,
{
}

} // verus!
