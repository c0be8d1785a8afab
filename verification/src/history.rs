//! What holds along every course of a game.

use vstd::prelude::*;
use crate::config::Config;
use crate::game::{starting_body, GameView};
use crate::grid::{in_grid, moved};
use crate::input::{accepted, Key};
use crate::snake::{placeholder, Direction, Node};

verus! {

/// A move never leaves a cell where it is, on a grid of at least two columns
/// and two rows.
pub proof fn lemma_move_leaves_cell(cell: Node, direction: Direction, config: Config)
    requires
        config.grid_width >= 2,
        config.grid_height >= 2,
    ensures
        moved(cell, direction.vector().0, direction.vector().1, config) != cell,
{
}

/// A snake whose head came from its neck by a move in its current direction
/// cannot reach the neck with its next move, whatever direction is
/// requested, on a grid of at least three columns and three rows: the only
/// direction that leads back is the opposite one, and that request is
/// dropped.
pub proof fn lemma_next_move_misses_neck(
    neck: Node,
    current: Direction,
    requested: Direction,
    config: Config,
)
    requires
        config.grid_width >= 3,
        config.grid_height >= 3,
        in_grid(config, neck),
    ensures
        ({
            let head = moved(neck, current.vector().0, current.vector().1, config);
            let next = accepted(current, requested);
            moved(head, next.vector().0, next.vector().1, config) != neck
        }),
{
}

impl GameView {
    /// The shape that a living snake has in play: at least three segments,
    /// all but possibly the last on the grid, and the head one move in the
    /// current direction away from the neck, on a grid of at least three
    /// columns and three rows.
    pub open spec fn coherent(self) -> bool {
        &&& self.config.grid_width >= 3
        &&& self.config.grid_height >= 3
        &&& self.snake.nodes.len() >= 3
        &&& forall|i: int|
            0 <= i < self.snake.nodes.len() - 1 ==> in_grid(self.config, #[trigger] self.snake.nodes[i])
        &&& self.snake.nodes[0] == moved(
            self.snake.nodes[1],
            self.snake.direction.vector().0,
            self.snake.direction.vector().1,
            self.config,
        )
    }

    /// Nothing lies on anything else: the obstacles are on the grid, no two
    /// on one cell, the food is on the grid and on no obstacle, and while
    /// the snake is alive no two of its segments share a cell and none lies
    /// on the food or on an obstacle.
    pub open spec fn tidy(self) -> bool {
        &&& forall|j: int|
            0 <= j < self.obstacles.len() ==> in_grid(self.config, #[trigger] self.obstacles[j])
        &&& forall|j: int, k: int|
            0 <= j < k < self.obstacles.len() ==> self.obstacles[j] != self.obstacles[k]
        &&& in_grid(self.config, self.food)
        &&& !self.obstacles.contains(self.food)
        &&& self.snake.is_alive ==> {
            &&& !self.snake.nodes.contains(self.food)
            &&& forall|i: int, k: int|
                0 <= i < k < self.snake.nodes.len() ==> self.snake.nodes[i] != self.snake.nodes[k]
            &&& forall|i: int|
                0 <= i < self.snake.nodes.len() ==> !self.obstacles.contains(
                    #[trigger] self.snake.nodes[i],
                )
        }
    }

    /// Whatever was eaten on the way from this game to `after` has
    /// reappeared on a cell that was free: the score has not risen, or the
    /// food of `after` lies where nothing lay when it was placed.
    pub open spec fn food_reappeared(self, after: GameView) -> bool {
        after.score > self.score ==> (GameView { food: self.food, ..after }).is_free(after.food)
    }

    /// `after` is what a single event can make of this game: a tick, a key
    /// going down or up, or a restart.
    pub open spec fn leads_to(self, after: GameView) -> bool {
        ||| exists|dt: int, food: Node| after == #[trigger] self.tick(dt, food)
        ||| exists|key: Key| self.snake.is_alive && after == #[trigger] self.key_pressed(key)
        ||| exists|key: Key| after == #[trigger] self.key_released(key)
        ||| self.restarted(after)
    }
}

/// A round starts in a coherent state wherever the starting body fits on
/// the grid.
pub proof fn lemma_restart_is_coherent(game: GameView, fresh: GameView)
    requires
        game.restarted(fresh),
        game.config.grid_width >= 13,
        game.config.grid_height >= 11,
    ensures
        fresh.coherent(),
        fresh.snake.is_alive,
{
}

/// On a grid that has room for the obstacles, the starting snake and the
/// food, a new round has the configured number of obstacles, all on the
/// grid, no two on one cell and none under the snake, and the food lies on
/// the grid, neither under the snake nor on an obstacle. The score is 0 and
/// the high score is what it was.
pub proof fn lemma_playable_restart(game: GameView, fresh: GameView)
    requires
        game.restarted(fresh),
        game.config.is_playable(),
    ensures
        fresh.snake.nodes == starting_body(),
        fresh.snake.direction == Direction::Left,
        fresh.snake.is_alive,
        !fresh.snake.is_turbo,
        fresh.score == 0,
        fresh.high_score == game.high_score,
        fresh.obstacles.len() == game.config.random_obstacle_count,
        forall|k: int|
            0 <= k < fresh.obstacles.len() ==> in_grid(fresh.config, #[trigger] fresh.obstacles[k])
                && !fresh.snake.nodes.contains(fresh.obstacles[k]),
        forall|j: int, k: int|
            0 <= j < k < fresh.obstacles.len() ==> fresh.obstacles[j] != fresh.obstacles[k],
        in_grid(fresh.config, fresh.food),
        !fresh.snake.nodes.contains(fresh.food),
        !fresh.obstacles.contains(fresh.food),
{
    assert forall|j: int, k: int| 0 <= j < k < fresh.obstacles.len() implies fresh.obstacles[j]
        != fresh.obstacles[k] by {
        let earlier = fresh.obstacles.subrange(0, k);
        assert(earlier[j] == fresh.obstacles[j]);
    }
}

/// A tick keeps the state coherent.
pub proof fn lemma_tick_keeps_coherence(game: GameView, dt: int, food: Node)
    requires
        game.coherent(),
    ensures
        game.tick(dt, food).coherent(),
{
}

/// Pressing or letting go of a key keeps the state coherent, and tidy if it
/// was.
pub proof fn lemma_keys_keep_order(game: GameView, key: Key)
    requires
        game.coherent(),
    ensures
        game.key_pressed(key).coherent(),
        game.key_released(key).coherent(),
        game.tidy() ==> game.key_pressed(key).tidy() && game.key_released(key).tidy(),
{
}

/// A new round on a grid with room for it is tidy.
pub proof fn lemma_restart_is_tidy(game: GameView, fresh: GameView)
    requires
        game.restarted(fresh),
        game.config.is_playable(),
    ensures
        fresh.tidy(),
{
    lemma_playable_restart(game, fresh);
    assert forall|i: int| 0 <= i < fresh.snake.nodes.len() implies !fresh.obstacles.contains(
        #[trigger] fresh.snake.nodes[i],
    ) by {
        let cell = fresh.snake.nodes[i];
        if fresh.obstacles.contains(cell) {
            let k = choose|k: int| 0 <= k < fresh.obstacles.len() && fresh.obstacles[k] == cell;
            assert(fresh.snake.nodes.contains(fresh.obstacles[k]));
        }
    }
}

/// A tick keeps a coherent state tidy, provided that the food, once eaten,
/// reappears on a free cell.
pub proof fn lemma_tick_keeps_tidiness(game: GameView, dt: int, food: Node)
    requires
        game.coherent(),
        game.tidy(),
        game.eats_within(dt) ==> game.moved().fed().is_free(food),
    ensures
        game.tick(dt, food).tidy(),
{
    if game.snake.is_alive && game.move_is_due(dt) && !game.dies() {
        let next = game.next_nodes();
        assert forall|i: int| 1 <= i < next.len() implies #[trigger] next[i] != next[0] by {
            assert(next.drop_first()[i - 1] == next[i]);
        }
        if game.eats() {
            let grown = next.push(placeholder());
            assert forall|i: int| 0 <= i < grown.len() implies !game.obstacles.contains(
                #[trigger] grown[i],
            ) by {
                if i == next.len() && game.obstacles.contains(grown[i]) {
                    let j = choose|j: int|
                        0 <= j < game.obstacles.len() && game.obstacles[j] == grown[i];
                    assert(in_grid(game.config, game.obstacles[j]));
                }
            }
        } else if next.contains(game.food) {
            let i = choose|i: int| 0 <= i < next.len() && next[i] == game.food;
            assert(i == 0);
        }
    }
}

/// In a coherent state the next move puts the head neither on the neck nor
/// on the segment behind it: a snake can only bite itself further back.
pub proof fn lemma_head_misses_neck(game: GameView)
    requires
        game.coherent(),
    ensures
        game.next_nodes()[0] != game.next_nodes()[1],
        game.next_nodes()[0] != game.next_nodes()[2],
        game.bites_itself() ==> exists|i: int|
            3 <= i < game.next_nodes().len() && game.next_nodes()[0] == #[trigger] game.next_nodes()[i],
{
    let next = game.next_nodes();
    let direction = game.next_direction();
    lemma_move_leaves_cell(game.snake.nodes[0], direction, game.config);
    if game.direction_queue.len() > 0 {
        lemma_next_move_misses_neck(
            game.snake.nodes[1],
            game.snake.direction,
            game.direction_queue[0],
            game.config,
        );
    } else {
        lemma_next_move_misses_neck(
            game.snake.nodes[1],
            game.snake.direction,
            game.snake.direction,
            game.config,
        );
    }
    if game.bites_itself() {
        let rest = next.drop_first();
        let k = choose|k: int| 0 <= k < rest.len() && rest[k] == next[0];
        assert(next[k + 1] == next[0]);
    }
}

/// When the oldest waiting request asks to turn straight back, the move
/// goes on in the current direction, the request is gone and the requests
/// behind it wait on, untouched. Any other oldest request becomes the
/// direction of the move.
pub proof fn lemma_reversal_is_dropped(game: GameView)
    requires
        game.direction_queue.len() > 0,
    ensures
        game.moved().direction_queue == game.direction_queue.drop_first(),
        game.direction_queue[0] == game.snake.direction.opposite() ==> game.moved().snake.direction
            == game.snake.direction,
        game.direction_queue[0] != game.snake.direction.opposite() ==> game.moved().snake.direction
            == game.direction_queue[0],
        game.moved().snake.direction != game.snake.direction.opposite(),
{
}

/// A snake that lands on its own body or on an obstacle is dead after the
/// tick, has moved, and the high score is the higher of the high score and
/// the score before; the score itself and the food stay.
pub proof fn lemma_collision_kills(game: GameView, dt: int, food: Node)
    requires
        game.snake.is_alive,
        game.move_is_due(dt),
        game.bites_itself() || game.hits_obstacle(),
    ensures
        !game.tick(dt, food).snake.is_alive,
        game.tick(dt, food).snake.nodes == game.next_nodes(),
        game.tick(dt, food).score == game.score,
        game.tick(dt, food).food == game.food,
        game.tick(dt, food).high_score == if game.score > game.high_score {
            game.score
        } else {
            game.high_score
        },
{
}

/// A snake that stays alive through a tick is alive after it, and it has
/// landed neither on its body nor on an obstacle.
pub proof fn lemma_survival(game: GameView, dt: int, food: Node)
    requires
        game.snake.is_alive,
        game.move_is_due(dt),
        !game.bites_itself(),
        !game.hits_obstacle(),
    ensures
        game.tick(dt, food).snake.is_alive,
        game.tick(dt, food).high_score == game.high_score,
        forall|i: int|
            1 <= i < game.next_nodes().len() ==> #[trigger] game.next_nodes()[i]
                != game.next_nodes()[0],
{
    let next = game.next_nodes();
    assert forall|i: int| 1 <= i < next.len() implies #[trigger] next[i] != next[0] by {
        assert(next.drop_first()[i - 1] == next[i]);
    }
}

/// Eating makes the snake exactly one segment longer and raises the score
/// by 2 under turbo and by 1 otherwise. After the move that follows, no
/// segment is left at the placeholder: each has taken the place of the
/// segment ahead of it, and the new tail stands where the old tail stood.
pub proof fn lemma_eating_grows(game: GameView, dt: int, food: Node, later: int, later_food: Node)
    requires
        game.coherent(),
        game.eats_within(dt),
        game.tick(dt, food).move_is_due(later),
    ensures
        ({
            let fed = game.tick(dt, food);
            let after = fed.tick(later, later_food);
            let body = fed.next_nodes();
            &&& fed.snake.nodes.len() == game.snake.nodes.len() + 1
            &&& fed.snake.nodes.last() == placeholder()
            &&& fed.score == game.score + if game.snake.is_turbo { 2int } else { 1int }
            &&& body.len() == game.snake.nodes.len() + 1
            &&& forall|i: int| 1 <= i < body.len() ==> #[trigger] body[i] == fed.snake.nodes[i - 1]
            &&& forall|i: int| 0 <= i < body.len() ==> in_grid(game.config, #[trigger] body[i])
            &&& body.last() == game.next_nodes().last()
            &&& after.snake.nodes == body || after.snake.nodes == body.push(placeholder())
        }),
{
    lemma_tick_keeps_coherence(game, dt, food);
}

/// No event lowers the high score; it changes only when the snake dies, and
/// then to the higher of itself and the score at that moment.
pub proof fn lemma_high_score_step(game: GameView, after: GameView)
    requires
        game.leads_to(after),
    ensures
        after.high_score >= game.high_score,
        game.snake.is_alive && !after.snake.is_alive ==> after.score == game.score
            && after.high_score == if game.score > game.high_score {
            game.score
        } else {
            game.high_score
        },
        !(game.snake.is_alive && !after.snake.is_alive) ==> after.high_score == game.high_score,
{
}

/// One event keeps a coherent and tidy game so, on a grid with room for a
/// new round on which the starting body fits, provided that food that was
/// eaten has reappeared on a free cell.
pub proof fn lemma_event_keeps_order(game: GameView, after: GameView)
    requires
        game.leads_to(after),
        game.coherent(),
        game.tidy(),
        game.config.is_playable(),
        game.config.grid_width >= 13,
        game.config.grid_height >= 11,
        game.food_reappeared(after),
    ensures
        after.coherent(),
        after.tidy(),
        after.config == game.config,
{
    if exists|dt: int, food: Node| after == #[trigger] game.tick(dt, food) {
        let (dt, food) = choose|dt: int, food: Node| after == #[trigger] game.tick(dt, food);
        if game.eats_within(dt) {
            assert((GameView { food: game.food, ..after }) == game.moved().fed());
        }
        lemma_tick_keeps_coherence(game, dt, food);
        lemma_tick_keeps_tidiness(game, dt, food);
    } else if exists|key: Key| after == #[trigger] game.key_pressed(key) {
        let key = choose|key: Key| after == #[trigger] game.key_pressed(key);
        lemma_keys_keep_order(game, key);
    } else if exists|key: Key| after == #[trigger] game.key_released(key) {
        let key = choose|key: Key| after == #[trigger] game.key_released(key);
        lemma_keys_keep_order(game, key);
    } else {
        lemma_restart_is_coherent(game, after);
        lemma_restart_is_tidy(game, after);
    }
}

/// A course of a game: each state arises from the one before by one event.
pub open spec fn is_course(states: Seq<GameView>) -> bool {
    forall|i: int| 0 <= i < states.len() - 1 ==> (#[trigger] states[i]).leads_to(states[i + 1])
}

/// Along every course of a game that starts coherent and tidy, on a grid
/// with room for a new round on which the starting body fits, every state is
/// coherent and tidy, as long as food that was eaten has always reappeared
/// on a free cell: the food is never under the snake or on an obstacle, no
/// two obstacles share a cell, and the living snake covers no cell twice and
/// no obstacle.
pub proof fn lemma_order_along_course(states: Seq<GameView>, to: int)
    requires
        is_course(states),
        0 <= to < states.len(),
        states[0].coherent(),
        states[0].tidy(),
        states[0].config.is_playable(),
        states[0].config.grid_width >= 13,
        states[0].config.grid_height >= 11,
        forall|i: int|
            0 <= i < states.len() - 1 ==> (#[trigger] states[i]).food_reappeared(states[i + 1]),
    ensures
        states[to].coherent(),
        states[to].tidy(),
        states[to].config == states[0].config,
    decreases to,
{
    if to > 0 {
        lemma_order_along_course(states, to - 1);
        assert(states[to - 1].leads_to(states[to - 1 + 1]));
        assert(states[to - 1].food_reappeared(states[to - 1 + 1]));
        lemma_event_keeps_order(states[to - 1], states[to]);
    }
}

/// The highest score at which the snake has died among the first `upto`
/// events of a course, or the high score at its start if that is higher.
pub open spec fn record(states: Seq<GameView>, upto: int) -> int
    decreases upto,
{
    if upto <= 0 {
        states[0].high_score
    } else {
        let earlier = record(states, upto - 1);
        let died = states[upto - 1].snake.is_alive && !states[upto].snake.is_alive;
        if died && states[upto].score > earlier {
            states[upto].score
        } else {
            earlier
        }
    }
}

/// Along every course of a game the high score never falls, and at every
/// state it is the highest score at which the snake has died so far, or the
/// high score from the start of the course if that is higher.
pub proof fn lemma_high_score_along_course(states: Seq<GameView>, from: int, to: int)
    requires
        is_course(states),
        0 <= from <= to < states.len(),
    ensures
        states[from].high_score <= states[to].high_score,
        states[to].high_score == record(states, to),
    decreases to,
{
    if to > 0 {
        lemma_high_score_step(states[to - 1], states[to]);
        if from < to {
            lemma_high_score_along_course(states, from, to - 1);
        } else {
            lemma_high_score_along_course(states, to - 1, to - 1);
        }
    }
}

} // verus!
