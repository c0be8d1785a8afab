//! Why a board with fewer occupied cells than cells has a free cell.

use vstd::prelude::*;
use vstd::arithmetic::div_mod::{lemma_div_pos_is_pos, lemma_fundamental_div_mod, lemma_multiply_divide_lt};
use vstd::set_lib::{lemma_int_range, set_int_range};
use crate::config::Config;
use crate::game::GameView;
use crate::grid::in_grid;
use crate::snake::Node;

verus! {

/// The cell with number `n`, the cells being counted row by row.
pub open spec fn cell_at(n: int, config: Config) -> Node {
    Node {
        x: (n % (config.grid_width as int)) as i32,
        y: (n / (config.grid_width as int)) as i32,
    }
}

/// Every number below the cell count names a cell of the grid, and the
/// number can be read back from the cell.
pub proof fn lemma_cell_at(n: int, config: Config)
    requires
        config.wf(),
        0 <= n < config.cell_count(),
    ensures
        in_grid(config, cell_at(n, config)),
        config.grid_width * cell_at(n, config).y + cell_at(n, config).x == n,
{
    let w = config.grid_width as int;
    let h = config.grid_height as int;
    lemma_fundamental_div_mod(n, w);
    lemma_div_pos_is_pos(n, w);
    lemma_multiply_divide_lt(n, w, h);
}

/// Among more numbered places than there are cells in `cells`, one place
/// names a cell that is not in `cells`.
pub proof fn lemma_spare_place(cells: Seq<Node>, pool: Set<int>, config: Config)
    requires
        config.wf(),
        pool.finite(),
        pool.len() > cells.len(),
        forall|n: int| pool.contains(n) ==> 0 <= n < config.cell_count(),
    ensures
        exists|n: int| #[trigger] pool.contains(n) && !cells.contains(cell_at(n, config)),
    decreases cells.len(),
{
    if cells.len() == 0 {
        let n = pool.choose();
        assert(pool.contains(n));
    } else {
        let last = cells.last();
        let rest = cells.drop_last();
        let taken = config.grid_width * last.y + last.x;
        let smaller = pool.remove(taken);
        lemma_spare_place(rest, smaller, config);
        let n = choose|n: int| #[trigger] smaller.contains(n) && !rest.contains(cell_at(n, config));
        lemma_cell_at(n, config);
        if cells.contains(cell_at(n, config)) {
            let i = choose|i: int| 0 <= i < cells.len() && cells[i] == cell_at(n, config);
            if i < rest.len() {
                assert(rest[i] == cells[i]);
            }
        }
    }
}

impl GameView {
    /// The snake, the food and the obstacles together are fewer than the
    /// cells of the grid.
    pub open spec fn has_room(self) -> bool {
        self.snake.nodes.len() + 1 + self.obstacles.len() < self.config.cell_count()
    }
}

/// A board on which the snake, the food and the obstacles together are
/// fewer than the cells has a free cell.
pub proof fn lemma_room_on_board(game: GameView)
    requires
        game.config.wf(),
        game.has_room(),
    ensures
        !game.board_full(),
        exists|cell: Node| game.is_free(cell),
{
    let cells = game.snake.nodes.push(game.food) + game.obstacles;
    let pool = set_int_range(0, game.config.cell_count());
    lemma_int_range(0, game.config.cell_count());
    lemma_spare_place(cells, pool, game.config);
    let n = choose|n: int| #[trigger] pool.contains(n) && !cells.contains(cell_at(n, game.config));
    let cell = cell_at(n, game.config);
    lemma_cell_at(n, game.config);
    let body = game.snake.nodes.len() as int;
    if game.snake.nodes.contains(cell) {
        let i = choose|i: int| 0 <= i < body && game.snake.nodes[i] == cell;
        assert(cells[i] == cell);
    }
    if game.obstacles.contains(cell) {
        let i = choose|i: int| 0 <= i < game.obstacles.len() && game.obstacles[i] == cell;
        assert(cells[body + 1 + i] == cell);
    }
    if game.food == cell {
        assert(cells[body] == cell);
    }
    assert(game.is_free(cell));
}

} // verus!
