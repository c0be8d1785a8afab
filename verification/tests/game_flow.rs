use snake_game::config::{self, Config};
use snake_game::game::Game;
use snake_game::input::Key;
use snake_game::snake::{Direction, Node, Snake};

fn cells(list: &[(i32, i32)]) -> Vec<Node> {
    list.iter().map(|&(x, y)| Node { x, y }).collect()
}

fn game_with(config: Config, body: &[(i32, i32)], direction: Direction, food: (i32, i32)) -> Game {
    Game {
        config,
        snake: Snake {
            nodes: cells(body),
            direction,
            is_alive: true,
            is_turbo: false,
            movement_delay: 80,
            last_movement_duration: 0,
        },
        food: Node { x: food.0, y: food.1 },
        obstacles: Vec::new(),
        score: 0,
        high_score: 0,
        direction_queue: Vec::new(),
    }
}

fn standard_game() -> Game {
    let mut config = config::new();
    config.random_obstacle_count = 0;
    game_with(config, &[(10, 10), (11, 10), (12, 10)], Direction::Left, (9, 10))
}

fn small(width: i32, height: i32) -> Config {
    Config { grid_width: width, grid_height: height, random_obstacle_count: 0 }
}

/// A snake that bites itself with its next move once it turns down.
fn curled_game() -> Game {
    let mut g = game_with(
        small(20, 24),
        &[(5, 5), (6, 5), (6, 6), (5, 6), (4, 6)],
        Direction::Left,
        (0, 0),
    );
    g.direction_queue.push(Direction::Down);
    g
}

fn on_grid(config: &Config, n: &Node) -> bool {
    0 <= n.x && n.x < config.grid_width && 0 <= n.y && n.y < config.grid_height
}

#[test]
fn basic_consumption() {
    let mut g = standard_game();
    g.obstacles = cells(&[(3, 3), (4, 4)]);
    g.update(81);
    assert_eq!(g.score, 1);
    assert_eq!(g.snake.nodes.len(), 4);
    assert_eq!(
        g.snake.nodes,
        cells(&[(9, 10), (10, 10), (11, 10), (-1, -1)])
    );
    assert!(g.snake.is_alive);
    assert_eq!(g.snake.last_movement_duration, 0);
    assert!(on_grid(&g.config, &g.food));
    // The new food avoids the snake as it lies now, the eaten food's cell and the obstacles.
    for taken in cells(&[(9, 10), (10, 10), (11, 10), (3, 3), (4, 4)]) {
        assert_ne!(g.food, taken);
    }
    assert_eq!(g.obstacles, cells(&[(3, 3), (4, 4)]));
    assert_eq!(g.high_score, 0);
}

#[test]
fn turbo_scoring() {
    let mut g = standard_game();
    assert_eq!(g.effective_delay(), 80);
    g.snake.is_turbo = true;
    assert_eq!(g.effective_delay(), 40);
    // Half of 80 ms is the threshold: 40 ms do not move the snake, one more does.
    g.update(40);
    assert_eq!(g.snake.nodes, cells(&[(10, 10), (11, 10), (12, 10)]));
    assert_eq!(g.snake.last_movement_duration, 40);
    assert_eq!(g.score, 0);
    g.update(1);
    assert_eq!(g.score, 2);
    assert_eq!(g.snake.nodes.len(), 4);
    assert_eq!(g.snake.nodes[0], Node { x: 9, y: 10 });
    assert!(g.snake.is_turbo);
}

#[test]
fn turbo_halves_an_odd_delay_downwards() {
    let mut g = standard_game();
    g.snake.is_turbo = true;
    g.snake.movement_delay = 81;
    assert_eq!(g.effective_delay(), 40);
    g.update(40);
    assert_eq!(g.snake.nodes[0], Node { x: 10, y: 10 });
    g.update(1);
    assert_eq!(g.snake.nodes[0], Node { x: 9, y: 10 });
}

#[test]
fn death_and_restart() {
    let mut g = curled_game();
    g.config.random_obstacle_count = 10;
    g.score = 7;
    g.high_score = 4;
    g.update(81);
    assert!(!g.snake.is_alive);
    assert_eq!(g.high_score, 7);
    assert_eq!(g.score, 7);
    assert_eq!(g.snake.nodes, cells(&[(5, 6), (5, 5), (6, 5), (6, 6), (5, 6)]));

    g.handle_key_press(Key::Space);
    assert_eq!(g.snake.nodes, cells(&[(10, 10), (11, 10), (12, 10)]));
    assert_eq!(g.snake.direction, Direction::Left);
    assert_eq!(g.score, 0);
    assert_eq!(g.high_score, 7);
    assert!(g.snake.is_alive);
    assert!(!g.snake.is_turbo);
    assert_eq!(g.snake.last_movement_duration, 0);
    assert_eq!(g.obstacles.len(), 10);
    assert!(on_grid(&g.config, &g.food));
    assert!(!g.snake.nodes.contains(&g.food));
    assert!(!g.obstacles.contains(&g.food));
    for (i, o) in g.obstacles.iter().enumerate() {
        assert!(on_grid(&g.config, o));
        assert!(!g.snake.nodes.contains(o));
        assert!(!g.obstacles[..i].contains(o));
    }
}

#[test]
fn high_score_keeps_the_higher_value_at_death() {
    let mut g = curled_game();
    g.score = 3;
    g.high_score = 9;
    g.update(81);
    assert!(!g.snake.is_alive);
    assert_eq!(g.high_score, 9);
    assert_eq!(g.score, 3);
}

#[test]
fn high_score_never_falls_over_rounds() {
    let mut g = curled_game();
    g.score = 5;
    let mut seen = g.high_score;
    g.update(81);
    assert!(g.high_score >= seen);
    assert_eq!(g.high_score, 5);
    seen = g.high_score;
    g.handle_key_press(Key::Space);
    assert_eq!(g.high_score, seen);
    for _ in 0..50 {
        g.update(81);
        assert!(g.high_score >= seen);
        seen = g.high_score;
        if !g.snake.is_alive {
            g.handle_key_press(Key::Space);
            assert_eq!(g.high_score, seen);
        }
    }
}

#[test]
fn time_gathers_until_it_exceeds_the_delay() {
    let mut g = standard_game();
    g.update(30);
    assert_eq!(g.snake.last_movement_duration, 30);
    assert_eq!(g.snake.nodes[0], Node { x: 10, y: 10 });
    g.update(50);
    // Exactly the delay is not yet past it.
    assert_eq!(g.snake.last_movement_duration, 80);
    assert_eq!(g.snake.nodes[0], Node { x: 10, y: 10 });
    g.update(1);
    assert_eq!(g.snake.last_movement_duration, 0);
    assert_eq!(g.snake.nodes[0], Node { x: 9, y: 10 });
}

#[test]
fn a_long_tick_moves_one_cell_only() {
    let mut g = standard_game();
    g.food = Node { x: 0, y: 0 };
    g.update(10_000);
    assert_eq!(g.snake.nodes, cells(&[(9, 10), (10, 10), (11, 10)]));
    assert_eq!(g.snake.last_movement_duration, 0);
}

#[test]
fn a_tick_of_the_longest_time_does_not_overflow() {
    let mut g = standard_game();
    g.food = Node { x: 0, y: 0 };
    g.snake.last_movement_duration = 79;
    g.update(u64::MAX);
    assert_eq!(g.snake.nodes[0], Node { x: 9, y: 10 });
    assert_eq!(g.snake.last_movement_duration, 0);
}

#[test]
fn dead_snake_ignores_ticks() {
    let mut g = standard_game();
    g.snake.is_alive = false;
    g.snake.last_movement_duration = 12;
    g.direction_queue.push(Direction::Up);
    g.update(500);
    assert_eq!(g.snake.nodes, cells(&[(10, 10), (11, 10), (12, 10)]));
    assert_eq!(g.snake.last_movement_duration, 12);
    assert_eq!(g.direction_queue, vec![Direction::Up]);
    assert_eq!(g.score, 0);
    assert_eq!(g.food, Node { x: 9, y: 10 });
}

#[test]
fn reversal_request_is_dropped() {
    let mut g = standard_game();
    g.food = Node { x: 0, y: 0 };
    g.direction_queue.push(Direction::Right);
    g.update(81);
    assert_eq!(g.snake.direction, Direction::Left);
    assert!(g.direction_queue.is_empty());
    assert_eq!(g.snake.nodes[0], Node { x: 9, y: 10 });
    assert!(g.snake.is_alive);
}

#[test]
fn only_the_oldest_request_is_looked_at_each_move() {
    let mut g = standard_game();
    g.food = Node { x: 0, y: 0 };
    g.direction_queue.push(Direction::Right);
    g.direction_queue.push(Direction::Up);
    g.update(81);
    // The reversal is dropped and the next request waits for the next move.
    assert_eq!(g.snake.direction, Direction::Left);
    assert_eq!(g.direction_queue, vec![Direction::Up]);
    assert_eq!(g.snake.nodes[0], Node { x: 9, y: 10 });
    g.update(81);
    assert_eq!(g.snake.direction, Direction::Up);
    assert!(g.direction_queue.is_empty());
    assert_eq!(g.snake.nodes[0], Node { x: 9, y: 9 });
}

#[test]
fn two_turns_within_one_tick_are_both_kept() {
    let mut g = standard_game();
    g.food = Node { x: 0, y: 0 };
    g.handle_key_press(Key::Up);
    g.handle_key_press(Key::Right);
    assert_eq!(g.direction_queue, vec![Direction::Up, Direction::Right]);
    g.update(81);
    assert_eq!(g.snake.direction, Direction::Up);
    g.update(81);
    // Right is no reversal of Up, though it was one of Left when it was pressed.
    assert_eq!(g.snake.direction, Direction::Right);
    assert_eq!(g.snake.nodes, cells(&[(11, 9), (10, 9), (10, 10)]));
}

#[test]
fn growth_is_realized_by_the_next_move() {
    let mut g = standard_game();
    g.update(81);
    assert_eq!(g.snake.nodes.len(), 4);
    assert_eq!(g.snake.nodes[3], Node { x: -1, y: -1 });
    g.food = Node { x: 0, y: 0 };
    g.update(81);
    assert_eq!(g.snake.nodes, cells(&[(8, 10), (9, 10), (10, 10), (11, 10)]));
    assert_eq!(g.score, 1);
}

#[test]
fn self_collision_kills() {
    let mut g = curled_game();
    g.update(81);
    assert!(!g.snake.is_alive);
    assert_eq!(g.snake.direction, Direction::Down);
    assert_eq!(g.snake.nodes[0], Node { x: 5, y: 6 });
    assert_eq!(g.food, Node { x: 0, y: 0 });
}

#[test]
fn moving_onto_the_vacated_tail_cell_is_no_collision() {
    // A ring of four: the head follows the tail around.
    let mut g = game_with(small(20, 24), &[(5, 5), (6, 5), (6, 6), (5, 6)], Direction::Left, (0, 0));
    g.direction_queue.push(Direction::Down);
    g.update(81);
    assert!(g.snake.is_alive);
    assert_eq!(g.snake.nodes, cells(&[(5, 6), (5, 5), (6, 5), (6, 6)]));
}

#[test]
fn obstacle_collision_kills() {
    let mut g = standard_game();
    g.food = Node { x: 0, y: 0 };
    g.obstacles = cells(&[(9, 10)]);
    g.score = 2;
    g.update(81);
    assert!(!g.snake.is_alive);
    assert_eq!(g.high_score, 2);
    assert_eq!(g.snake.nodes, cells(&[(9, 10), (10, 10), (11, 10)]));
    assert_eq!(g.obstacles, cells(&[(9, 10)]));
}

#[test]
fn food_under_an_obstacle_is_not_eaten() {
    let mut g = standard_game();
    g.obstacles = cells(&[(9, 10)]);
    g.update(81);
    assert!(!g.snake.is_alive);
    assert_eq!(g.score, 0);
    assert_eq!(g.snake.nodes.len(), 3);
}

#[test]
fn snake_wraps_around_the_left_edge() {
    let mut g = game_with(small(20, 24), &[(0, 3), (1, 3), (2, 3)], Direction::Left, (5, 5));
    g.update(81);
    assert_eq!(g.snake.nodes, cells(&[(19, 3), (0, 3), (1, 3)]));
    assert!(g.snake.is_alive);
}

#[test]
fn keys_while_alive() {
    let mut g = standard_game();
    g.handle_key_press(Key::LShift);
    assert!(g.snake.is_turbo);
    assert!(g.direction_queue.is_empty());
    g.handle_key_press(Key::W);
    g.handle_key_press(Key::A);
    g.handle_key_press(Key::S);
    g.handle_key_press(Key::D);
    g.handle_key_press(Key::Other);
    g.handle_key_press(Key::Space);
    assert_eq!(
        g.direction_queue,
        vec![Direction::Up, Direction::Left, Direction::Down, Direction::Right]
    );
    assert!(g.snake.is_turbo);
    assert_eq!(g.snake.nodes, cells(&[(10, 10), (11, 10), (12, 10)]));
    g.handle_key_release(Key::Up);
    assert!(g.snake.is_turbo);
    g.handle_key_release(Key::LShift);
    assert!(!g.snake.is_turbo);
    assert_eq!(g.direction_queue.len(), 4);
}

#[test]
fn keys_while_dead_are_ignored_but_for_restart() {
    let mut g = standard_game();
    g.snake.is_alive = false;
    g.snake.is_turbo = true;
    g.score = 3;
    g.handle_key_press(Key::Up);
    g.handle_key_press(Key::LShift);
    g.handle_key_press(Key::Other);
    g.handle_key_release(Key::LShift);
    assert!(g.direction_queue.is_empty());
    assert!(g.snake.is_turbo);
    assert!(!g.snake.is_alive);
    assert_eq!(g.score, 3);
    g.handle_key_press(Key::Space);
    assert!(g.snake.is_alive);
    assert!(!g.snake.is_turbo);
    assert_eq!(g.score, 0);
}

#[test]
fn new_game_starts_a_round() {
    let g = Game::new(config::new());
    assert_eq!(g.snake.nodes, cells(&[(10, 10), (11, 10), (12, 10)]));
    assert_eq!(g.snake.direction, Direction::Left);
    assert!(g.snake.is_alive);
    assert!(!g.snake.is_turbo);
    assert_eq!(g.snake.movement_delay, 80);
    assert_eq!(g.snake.last_movement_duration, 0);
    assert_eq!(g.score, 0);
    assert_eq!(g.high_score, 0);
    assert_eq!(g.obstacles.len(), 10);
    assert!(g.direction_queue.is_empty());
    assert!(on_grid(&g.config, &g.food));
    assert!(!g.is_occupied(Node { x: -1, y: -1 }));
    assert!(g.is_occupied(g.food));
}

#[test]
fn reset_keeps_high_score_and_delay() {
    let mut g = standard_game();
    g.config.random_obstacle_count = 5;
    g.high_score = 11;
    g.score = 4;
    g.snake.movement_delay = 60;
    g.snake.is_turbo = true;
    g.snake.last_movement_duration = 33;
    g.obstacles = cells(&[(1, 1)]);
    g.reset_game();
    assert_eq!(g.high_score, 11);
    assert_eq!(g.score, 0);
    assert_eq!(g.snake.movement_delay, 60);
    assert!(!g.snake.is_turbo);
    assert_eq!(g.snake.last_movement_duration, 0);
    assert_eq!(g.obstacles.len(), 5);
}

#[test]
fn occupancy_covers_snake_food_and_obstacles() {
    let mut g = standard_game();
    g.obstacles = cells(&[(3, 3)]);
    assert!(g.is_occupied(Node { x: 10, y: 10 }));
    assert!(g.is_occupied(Node { x: 12, y: 10 }));
    assert!(g.is_occupied(Node { x: 9, y: 10 }));
    assert!(g.is_occupied(Node { x: 3, y: 3 }));
    assert!(!g.is_occupied(Node { x: 3, y: 4 }));
    assert!(!g.is_occupied(Node { x: 0, y: 0 }));
}

#[test]
fn the_only_free_cell_is_found() {
    // 2 x 2 cells, three of them taken: the draw must end on (1, 1).
    let mut g = game_with(small(2, 2), &[(0, 0), (1, 0)], Direction::Left, (0, 1));
    for _ in 0..20 {
        assert_eq!(g.find_random_available_node(), Some((1, 1)));
    }
    g.place_random_food();
    assert_eq!(g.food, Node { x: 1, y: 1 });
}

#[test]
fn a_full_board_has_no_free_cell() {
    let mut g = game_with(small(2, 2), &[(0, 0), (1, 0), (1, 1)], Direction::Left, (0, 1));
    assert_eq!(g.find_random_available_node(), None);
    g.place_random_food();
    assert_eq!(g.food, Node { x: 0, y: 1 });
    g.place_random_obstacles(3);
    assert!(g.obstacles.is_empty());
}

#[test]
fn drawn_cells_lie_on_the_grid() {
    // On a grid of one cell the only draw is (0, 0).
    let g = game_with(small(1, 1), &[(5, 5)], Direction::Left, (7, 7));
    for _ in 0..20 {
        assert_eq!(g.find_random_available_node(), Some((0, 0)));
    }
    let wide = game_with(small(7, 3), &[(0, 0)], Direction::Left, (1, 0));
    for _ in 0..200 {
        let (x, y) = wide.find_random_available_node().unwrap();
        assert!(0 <= x && x < 7 && 0 <= y && y < 3);
        assert!((x, y) != (0, 0) && (x, y) != (1, 0));
    }
}

#[test]
fn obstacles_fill_what_is_free_and_stop() {
    // 3 x 2 cells, the snake on two and the food on one: three cells are left.
    let mut g = game_with(small(3, 2), &[(0, 0), (1, 0)], Direction::Left, (2, 0));
    g.place_random_obstacles(5);
    assert_eq!(g.obstacles.len(), 3);
    let mut placed = g.obstacles.clone();
    placed.sort_by_key(|n| (n.y, n.x));
    assert_eq!(placed, cells(&[(0, 1), (1, 1), (2, 1)]));
    assert_eq!(g.food, Node { x: 2, y: 0 });
    assert_eq!(g.snake.nodes, cells(&[(0, 0), (1, 0)]));
}

#[test]
fn obstacles_are_appended_to_those_there() {
    let mut g = standard_game();
    g.obstacles = cells(&[(1, 1), (2, 2)]);
    g.place_random_obstacles(4);
    assert_eq!(g.obstacles.len(), 6);
    assert_eq!(g.obstacles[..2], cells(&[(1, 1), (2, 2)])[..]);
    for (i, o) in g.obstacles.iter().enumerate() {
        assert!(on_grid(&g.config, o));
        assert!(!g.snake.nodes.contains(o));
        assert_ne!(*o, g.food);
        assert!(!g.obstacles[..i].contains(o));
    }
}

#[test]
fn eating_on_a_full_board_leaves_the_food() {
    // 2 x 1 cells: the snake fills the board once it has eaten.
    let mut g = game_with(small(2, 1), &[(0, 0)], Direction::Right, (1, 0));
    g.update(81);
    assert!(g.snake.is_alive);
    assert_eq!(g.score, 1);
    assert_eq!(g.snake.nodes, cells(&[(1, 0), (-1, -1)]));
    // The only other cell, (0, 0), is free, so the food moves there.
    assert_eq!(g.food, Node { x: 0, y: 0 });
    g.update(81);
    assert_eq!(g.score, 2);
    assert_eq!(g.snake.nodes, cells(&[(0, 0), (1, 0), (-1, -1)]));
    // Now every cell is under the snake: the food stays where it was eaten.
    assert_eq!(g.food, Node { x: 0, y: 0 });
}

#[test]
fn well_formedness_needs_a_grid_and_a_head() {
    let mut g = standard_game();
    assert!(g.is_well_formed());
    g.snake.nodes.clear();
    assert!(!g.is_well_formed());
    let mut h = standard_game();
    h.config.grid_width = 0;
    assert!(!h.is_well_formed());
    let mut k = standard_game();
    k.config.grid_height = 0;
    assert!(!k.is_well_formed());
}
