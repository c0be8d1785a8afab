//! The game state machine: time, movement, collisions, food and restart.

use vstd::prelude::*;
use crate::config::{Config, INITIAL_SNAKE_LENGTH};
use crate::grid::in_grid;
use crate::input::{accept, resolve_direction, Key};
use crate::placement::lemma_room_on_board;
use crate::random::{draw_below, thread_generator};
use crate::snake::{placeholder, shifted, Direction, Milliseconds, Node, Snake, SnakeView};

verus! {

/// How often a random cell is drawn before the grid is searched cell by cell.
pub const RANDOM_ATTEMPTS: u32 = 1000;

/// Time between two moves at the start of a game.
pub const DEFAULT_MOVEMENT_DELAY: Milliseconds = 80;

/// Everything that a round of the game consists of. A renderer reads the
/// fields; the methods move the game on.
pub struct Game {
    pub config: Config,
    pub snake: Snake,
    pub food: Node,
    pub obstacles: Vec<Node>,
    pub score: u16,
    pub high_score: u16,
    /// Direction requests that no move has taken up yet, oldest first.
    pub direction_queue: Vec<Direction>,
}

/// The game as a mathematical value.
pub struct GameView {
    pub config: Config,
    pub snake: SnakeView,
    pub food: Node,
    pub obstacles: Seq<Node>,
    pub score: int,
    pub high_score: int,
    pub direction_queue: Seq<Direction>,
}

impl View for Game {
    type V = GameView;

    open spec fn view(&self) -> GameView {
        GameView {
            config: self.config,
            snake: self.snake@,
            food: self.food,
            obstacles: self.obstacles@,
            score: self.score as int,
            high_score: self.high_score as int,
            direction_queue: self.direction_queue@,
        }
    }
}

/// The body with which every round starts.
pub open spec fn starting_body() -> Seq<Node> {
    seq![Node { x: 10i32, y: 10i32 }, Node { x: 11i32, y: 10i32 }, Node { x: 12i32, y: 10i32 }]
}

/// The starting body has the length that the configuration counts on, and
/// lies in one row with its head at the left end.
pub proof fn lemma_starting_body()
    ensures
        starting_body().len() == INITIAL_SNAKE_LENGTH,
        starting_body()[0] == (Node { x: 10, y: 10 }),
        starting_body()[1] == (Node { x: 11, y: 10 }),
        starting_body()[2] == (Node { x: 12, y: 10 }),
{
}

impl GameView {
    /// The time after which the snake moves: half the delay under turbo.
    pub open spec fn effective_delay(self) -> int {
        if self.snake.is_turbo {
            self.snake.movement_delay / 2
        } else {
            self.snake.movement_delay
        }
    }

    /// Whether `dt` more milliseconds carry the gathered time past the
    /// effective delay.
    pub open spec fn move_is_due(self, dt: int) -> bool {
        self.snake.last_movement_duration + dt > self.effective_delay()
    }

    /// Whether the snake, the food or an obstacle is on `cell`.
    pub open spec fn occupied(self, cell: Node) -> bool {
        self.snake.nodes.contains(cell) || self.food == cell || self.obstacles.contains(cell)
    }

    /// Whether `cell` is on the grid with nothing on it.
    pub open spec fn is_free(self, cell: Node) -> bool {
        in_grid(self.config, cell) && !self.occupied(cell)
    }

    /// Whether no cell of the grid is free.
    pub open spec fn board_full(self) -> bool {
        forall|cell: Node| in_grid(self.config, cell) ==> #[trigger] self.occupied(cell)
    }

    /// The direction in which the next move goes.
    pub open spec fn next_direction(self) -> Direction {
        resolve_direction(self.snake.direction, self.direction_queue)
    }

    /// The body after the next move.
    pub open spec fn next_nodes(self) -> Seq<Node> {
        let v = self.next_direction().vector();
        shifted(self.snake.nodes, v.0, v.1, self.config)
    }

    /// Whether the next move puts the head on another segment of the body.
    pub open spec fn bites_itself(self) -> bool {
        self.next_nodes().drop_first().contains(self.next_nodes()[0])
    }

    /// Whether the next move puts the head on an obstacle.
    pub open spec fn hits_obstacle(self) -> bool {
        self.obstacles.contains(self.next_nodes()[0])
    }

    /// Whether the next move kills the snake.
    pub open spec fn dies(self) -> bool {
        self.bites_itself() || self.hits_obstacle()
    }

    /// Whether the next move ends on the food with the snake alive.
    pub open spec fn eats(self) -> bool {
        !self.dies() && self.next_nodes()[0] == self.food
    }

    /// What one food is worth: 2 under turbo, else 1.
    pub open spec fn gain(self) -> int {
        if self.snake.is_turbo {
            2
        } else {
            1
        }
    }

    /// The game after `dt` milliseconds in which no move was due.
    pub open spec fn waited(self, dt: int) -> GameView {
        GameView {
            snake: SnakeView {
                last_movement_duration: self.snake.last_movement_duration + dt,
                ..self.snake
            },
            ..self
        }
    }

    /// The game after the oldest direction request was taken from the queue
    /// and the body was shifted, before anything is made of where the head
    /// has landed.
    pub open spec fn moved(self) -> GameView {
        GameView {
            snake: SnakeView {
                nodes: self.next_nodes(),
                direction: self.next_direction(),
                last_movement_duration: 0,
                ..self.snake
            },
            direction_queue: if self.direction_queue.len() > 0 {
                self.direction_queue.drop_first()
            } else {
                self.direction_queue
            },
            ..self
        }
    }

    /// The game after the snake has died: the high score takes up the score
    /// if that is higher.
    pub open spec fn ended(self) -> GameView {
        GameView {
            snake: SnakeView { is_alive: false, ..self.snake },
            high_score: if self.score > self.high_score {
                self.score
            } else {
                self.high_score
            },
            ..self
        }
    }

    /// The game after the snake has eaten, before new food is placed: the
    /// score is raised and a segment waits at the placeholder behind the tail.
    pub open spec fn fed(self) -> GameView {
        GameView {
            snake: SnakeView { nodes: self.snake.nodes.push(placeholder()), ..self.snake },
            score: self.score + self.gain(),
            ..self
        }
    }

    /// The game after a tick of `dt` milliseconds, where `food` is the food
    /// cell after the tick (it differs from the one before only if the snake
    /// has eaten).
    pub open spec fn tick(self, dt: int, food: Node) -> GameView {
        if !self.snake.is_alive {
            self
        } else if !self.move_is_due(dt) {
            self.waited(dt)
        } else if self.dies() {
            self.moved().ended()
        } else if self.eats() {
            GameView { food: food, ..self.moved().fed() }
        } else {
            self.moved()
        }
    }

    /// Whether a tick of `dt` milliseconds makes the snake eat.
    pub open spec fn eats_within(self, dt: int) -> bool {
        self.snake.is_alive && self.move_is_due(dt) && self.eats()
    }

    /// `after` is this game with the food moved to a cell that was free, or
    /// unchanged if the board had no free cell. The food does move wherever
    /// the board has room.
    pub open spec fn food_placed(self, after: GameView) -> bool {
        &&& after == (GameView { food: after.food, ..self })
        &&& (self.is_free(after.food) || (after.food == self.food && self.board_full()))
        &&& self.has_room() ==> self.is_free(after.food)
    }

    /// `after` is this game with obstacles appended, each on a cell that was
    /// free when it was placed: `count` of them, or fewer with the board
    /// full. All `count` are there wherever the grid has cells enough for
    /// them beside the snake and the food.
    pub open spec fn obstacles_placed(self, count: int, after: GameView) -> bool {
        &&& after == (GameView { obstacles: after.obstacles, ..self })
        &&& self.obstacles.len() <= after.obstacles.len() <= self.obstacles.len() + count
        &&& after.obstacles.subrange(0, self.obstacles.len() as int) == self.obstacles
        &&& forall|k: int|
            self.obstacles.len() <= k < after.obstacles.len() ==> (GameView {
                obstacles: after.obstacles.subrange(0, k),
                ..self
            }).is_free(#[trigger] after.obstacles[k])
        &&& (after.obstacles.len() == self.obstacles.len() + count || after.board_full())
        &&& self.snake.nodes.len() + 1 + self.obstacles.len() + count <= self.config.cell_count()
            ==> after.obstacles.len() == self.obstacles.len() + count
    }

    /// The game at the start of a round before anything is placed: the
    /// snake is back on its starting body heading left, alive and without
    /// turbo, the score is 0 and there is no obstacle. The high score, the
    /// delay and the waiting direction requests stay.
    pub open spec fn cleared(self) -> GameView {
        GameView {
            snake: SnakeView {
                nodes: starting_body(),
                direction: Direction::Left,
                is_alive: true,
                is_turbo: false,
                last_movement_duration: 0,
                ..self.snake
            },
            score: 0,
            obstacles: Seq::empty(),
            ..self
        }
    }

    /// A game on which nothing has happened yet: no snake, no obstacle, the
    /// food off the grid, both scores 0 and the default delay.
    pub open spec fn blank(config: Config) -> GameView {
        GameView {
            config: config,
            snake: SnakeView {
                nodes: Seq::empty(),
                direction: Direction::Left,
                is_alive: true,
                is_turbo: false,
                movement_delay: DEFAULT_MOVEMENT_DELAY as int,
                last_movement_duration: 0,
            },
            food: placeholder(),
            obstacles: Seq::empty(),
            score: 0,
            high_score: 0,
            direction_queue: Seq::empty(),
        }
    }

    /// `fresh` is a new round of this game: cleared, then the configured
    /// number of obstacles placed, then the food.
    pub open spec fn restarted(self, fresh: GameView) -> bool {
        let scattered = GameView { food: self.food, ..fresh };
        &&& self.cleared().obstacles_placed(self.config.random_obstacle_count as int, scattered)
        &&& scattered.food_placed(fresh)
    }

    /// The game after a key went down while the snake is alive: the turbo
    /// key switches turbo on, a direction key adds its request to the queue.
    pub open spec fn key_pressed(self, key: Key) -> GameView {
        GameView {
            snake: SnakeView { is_turbo: self.snake.is_turbo || key == Key::LShift, ..self.snake },
            direction_queue: match key.direction() {
                Some(d) => self.direction_queue.push(d),
                None => self.direction_queue,
            },
            ..self
        }
    }

    /// The game after a key went up: letting go of the turbo key switches
    /// turbo off while the snake is alive.
    pub open spec fn key_released(self, key: Key) -> GameView {
        if self.snake.is_alive && key == Key::LShift {
            GameView { snake: SnakeView { is_turbo: false, ..self.snake }, ..self }
        } else {
            self
        }
    }
}

/// Whether `cell` is among `nodes` from index `start` on.
fn contains_from(nodes: &Vec<Node>, start: usize, cell: Node) -> (found: bool)
    requires
        start <= nodes@.len(),
    ensures
        found == nodes@.subrange(start as int, nodes@.len() as int).contains(cell),
{
    let ghost rest = nodes@.subrange(start as int, nodes@.len() as int);
    let mut i: usize = start;
    while i < nodes.len()
        invariant
            start <= i <= nodes@.len(),
            rest == nodes@.subrange(start as int, nodes@.len() as int),
            forall|k: int| 0 <= k < i - start ==> rest[k] != cell,
        decreases nodes@.len() - i,
    {
        if nodes[i].eq(cell) {
            assert(rest[i - start] == cell);
            return true;
        }
        i += 1;
    }
    false
}

impl Game {
    /// The grid has a cell and the snake has a head.
    pub open spec fn wf(&self) -> bool {
        self.config.wf() && self.snake.wf()
    }

    /// Decides [`Game::wf`].
    pub fn is_well_formed(&self) -> (ok: bool)
        ensures
            ok == self.wf(),
    {
        self.config.grid_width >= 1 && self.config.grid_height >= 1 && self.snake.nodes.len() >= 1
    }

    /// The time after which the snake moves: half the delay under turbo.
    pub fn effective_delay(&self) -> (delay: Milliseconds)
        ensures
            delay == self@.effective_delay(),
    {
        if self.snake.is_turbo {
            self.snake.movement_delay / 2
        } else {
            self.snake.movement_delay
        }
    }

    /// A game in its first round, ready for its first tick.
    pub fn new(config: Config) -> (game: Game)
        requires
            config.wf(),
        ensures
            game.wf(),
            GameView::blank(config).restarted(game@),
    {
        let mut game = Game {
            config: config,
            snake: Snake {
                nodes: Vec::new(),
                direction: Direction::Left,
                is_alive: true,
                is_turbo: false,
                movement_delay: DEFAULT_MOVEMENT_DELAY,
                last_movement_duration: 0,
            },
            food: Node { x: -1, y: -1 },
            obstacles: Vec::new(),
            score: 0,
            high_score: 0,
            direction_queue: Vec::new(),
        };
        game.reset_game();
        game
    }

    /// Whether the snake, the food or an obstacle is on `cell`.
    pub fn is_occupied(&self, cell: Node) -> (taken: bool)
        ensures
            taken == self@.occupied(cell),
    {
        assert(self.snake.nodes@.subrange(0, self.snake.nodes@.len() as int) == self.snake.nodes@);
        assert(self.obstacles@.subrange(0, self.obstacles@.len() as int) == self.obstacles@);
        contains_from(&self.snake.nodes, 0, cell) || self.food.eq(cell) || contains_from(
            &self.obstacles,
            0,
            cell,
        )
    }

    /// Searches the grid column by column for a cell with nothing on it.
    fn first_free_cell(&self) -> (found: Option<(i32, i32)>)
        requires
            self.config.wf(),
        ensures
            match found {
                Some((x, y)) => self@.is_free(Node { x, y }),
                None => self@.board_full(),
            },
    {
        let mut x: i32 = 0;
        while x < self.config.grid_width
            invariant
                self.config.wf(),
                0 <= x <= self.config.grid_width,
                forall|cell: Node|
                    0 <= cell.x < x && 0 <= cell.y < self.config.grid_height
                        ==> #[trigger] self@.occupied(cell),
            decreases self.config.grid_width - x,
        {
            let mut y: i32 = 0;
            while y < self.config.grid_height
                invariant
                    0 <= x < self.config.grid_width,
                    0 <= y <= self.config.grid_height,
                    forall|cell: Node|
                        0 <= cell.x < x && 0 <= cell.y < self.config.grid_height
                            ==> #[trigger] self@.occupied(cell),
                    forall|cell: Node|
                        cell.x == x && 0 <= cell.y < y ==> #[trigger] self@.occupied(cell),
                decreases self.config.grid_height - y,
            {
                if !self.is_occupied(Node { x, y }) {
                    return Some((x, y));
                }
                y += 1;
            }
            x += 1;
        }
        None
    }

    /// Picks a cell of the grid on which there is neither the snake, nor the
    /// food, nor an obstacle. Cells are drawn at random; after
    /// [`RANDOM_ATTEMPTS`] occupied draws the grid is searched cell by cell.
    /// `None` comes back exactly when the board is full, which it is not
    /// while the snake, the food and the obstacles are fewer than the cells.
    pub fn find_random_available_node(&self) -> (found: Option<(i32, i32)>)
        requires
            self.config.wf(),
        ensures
            match found {
                Some((x, y)) => self@.is_free(Node { x, y }),
                None => self@.board_full(),
            },
            found is None <==> self@.board_full(),
            self@.has_room() ==> found is Some,
    {
        proof {
            if self@.has_room() {
                lemma_room_on_board(self@);
            }
        }
        let mut rng = thread_generator();
        let mut attempt: u32 = 0;
        while attempt < RANDOM_ATTEMPTS
            invariant
                self.config.wf(),
            decreases RANDOM_ATTEMPTS - attempt,
        {
            let x: i32 = draw_below(&mut rng, self.config.grid_width);
            let y: i32 = draw_below(&mut rng, self.config.grid_height);
            if !self.is_occupied(Node { x, y }) {
                return Some((x, y));
            }
            attempt += 1;
        }
        self.first_free_cell()
    }

    /// Moves the food to a free cell. With the board full the food stays
    /// where it is.
    pub fn place_random_food(&mut self)
        requires
            old(self).config.wf(),
        ensures
            old(self)@.food_placed(final(self)@),
    {
        match self.find_random_available_node() {
            Some((x, y)) => {
                self.food.x = x;
                self.food.y = y;
            },
            None => {},
        }
    }

    /// Appends `count` obstacles, each on a cell that is free when it is
    /// placed. Once the board is full no further obstacle is added.
    pub fn place_random_obstacles(&mut self, count: u32)
        requires
            old(self).config.wf(),
        ensures
            old(self)@.obstacles_placed(count as int, final(self)@),
    {
        let ghost before = self@;
        let mut placed: u32 = 0;
        let mut full: bool = false;
        assert(before.obstacles.subrange(0, before.obstacles.len() as int) == before.obstacles);
        while placed < count && !full
            invariant
                self.config.wf(),
                placed <= count,
                before.obstacles_placed(placed as int, self@),
                self.obstacles@.len() == before.obstacles.len() + placed,
                full ==> self@.board_full() && placed < count,
            decreases count - placed + if full { 0int } else { 1int },
        {
            let ghost earlier = self.obstacles@;
            match self.find_random_available_node() {
                Some((x, y)) => {
                    self.obstacles.push(Node { x, y });
                    placed += 1;
                    proof {
                        let now = self.obstacles@;
                        assert(now.subrange(0, before.obstacles.len() as int) == earlier.subrange(
                            0,
                            before.obstacles.len() as int,
                        ));
                        assert forall|k: int| before.obstacles.len() <= k < now.len() implies (GameView {
                            obstacles: now.subrange(0, k),
                            ..before
                        }).is_free(#[trigger] now[k]) by {
                            if k < earlier.len() {
                                assert(now.subrange(0, k) == earlier.subrange(0, k));
                            }
                        }
                    }
                },
                None => {
                    full = true;
                },
            }
        }
        proof {
            if full && self@.has_room() {
                lemma_room_on_board(self@);
            }
        }
    }

    /// Ends the round: the snake is dead and the high score takes up the
    /// score if that is higher.
    fn game_over(&mut self)
        ensures
            final(self)@ == old(self)@.ended(),
    {
        if self.score > self.high_score {
            self.high_score = self.score;
        }
        self.snake.is_alive = false;
    }

    /// Starts a new round: the snake returns to its starting body, heading
    /// left, the score returns to 0, the configured number of obstacles is
    /// placed anew and then the food. The high score is kept.
    pub fn reset_game(&mut self)
        requires
            old(self).config.wf(),
        ensures
            old(self)@.restarted(final(self)@),
            final(self).wf(),
            final(self).high_score == old(self).high_score,
    {
        let mut nodes: Vec<Node> = Vec::new();
        nodes.push(Node { x: 10, y: 10 });
        nodes.push(Node { x: 11, y: 10 });
        nodes.push(Node { x: 12, y: 10 });
        assert(nodes@ == starting_body());

        self.snake.nodes = nodes;
        self.snake.direction = Direction::Left;
        self.snake.is_alive = true;
        self.snake.is_turbo = false;
        self.snake.last_movement_duration = 0;

        self.score = 0;
        self.obstacles = Vec::new();

        self.place_random_obstacles(self.config.random_obstacle_count);
        self.place_random_food();
    }

    /// Advances the game by `dt_ms` milliseconds.
    ///
    /// A dead snake stays as it is. A living snake gathers the time; once
    /// the gathered time exceeds the effective delay it moves one cell, and
    /// only one however long the tick: the oldest direction request is taken
    /// up unless it asks to turn straight back, the body shifts, and then the
    /// snake dies if its head is on its body or on an obstacle, or else eats
    /// if its head is on the food.
    pub fn update(&mut self, dt_ms: Milliseconds)
        requires
            old(self).wf(),
            old(self)@.eats_within(dt_ms as int) ==> old(self).score + old(self)@.gain()
                <= u16::MAX,
        ensures
            final(self).wf(),
            final(self)@ == old(self)@.tick(dt_ms as int, final(self).food),
            old(self)@.eats_within(dt_ms as int) ==> old(self)@.moved().fed().food_placed(
                final(self)@,
            ),
            final(self).high_score >= old(self).high_score,
    {
        let ghost before = self@;
        if !self.snake.is_alive {
            return ;
        }
        let delay: Milliseconds = self.effective_delay();
        let gathered: Milliseconds = self.snake.last_movement_duration;
        if gathered <= delay && dt_ms <= delay - gathered {
            self.snake.last_movement_duration = gathered + dt_ms;
            return ;
        }
        self.snake.last_movement_duration = 0;

        if self.direction_queue.len() > 0 {
            let requested: Direction = self.direction_queue.remove(0);
            self.snake.set_direction(accept(self.snake.direction, requested));
        }
        let (x_change, y_change) = self.snake.direction.unit_vector();
        self.snake.update_node_locations(x_change, y_change, self.config);
        assert(self@ == before.moved());

        let head: Node = self.snake.nodes[0];
        if contains_from(&self.snake.nodes, 1, head) {
            self.game_over();
            return ;
        }
        if contains_from(&self.obstacles, 0, head) {
            self.game_over();
            return ;
        }
        assert(self.obstacles@.subrange(0, self.obstacles@.len() as int) == self.obstacles@);
        if head.eq(self.food) {
            if self.snake.is_turbo {
                self.score += 2;
            } else {
                self.score += 1;
            }
            self.snake.nodes.push(Node { x: -1, y: -1 });
            assert(self@ == before.moved().fed());
            self.place_random_food();
        }
    }

    /// Takes in a key that went down. While the snake is dead only the
    /// restart key does anything: it starts a new round. While it is alive
    /// the turbo key switches turbo on at once, and a direction key adds its
    /// request to the queue, whatever the current direction is.
    pub fn handle_key_press(&mut self, key: Key)
        requires
            old(self).wf(),
        ensures
            final(self).wf(),
            old(self).snake.is_alive ==> final(self)@ == old(self)@.key_pressed(key),
            !old(self).snake.is_alive && key != Key::Space ==> final(self)@ == old(self)@,
            !old(self).snake.is_alive && key == Key::Space ==> old(self)@.restarted(final(self)@),
            final(self).high_score == old(self).high_score,
    {
        if !self.snake.is_alive {
            if key == Key::Space {
                self.reset_game();
            }
            return ;
        }
        if key == Key::LShift {
            self.snake.set_turbo(true);
        }
        match key.requested_direction() {
            Some(direction) => {
                self.direction_queue.push(direction);
            },
            None => {},
        }
    }

    /// Takes in a key that went up: letting go of the turbo key switches
    /// turbo off while the snake is alive.
    pub fn handle_key_release(&mut self, key: Key)
        ensures
            final(self)@ == old(self)@.key_released(key),
    {
        if self.snake.is_alive {
            if key == Key::LShift {
                self.snake.set_turbo(false);
            }
        }
    }
}

} // verus!
