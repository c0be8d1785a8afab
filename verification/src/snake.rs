//! The snake: an ordered body of cells, head first, and how it moves.

use vstd::prelude::*;
use crate::config::Config;
use crate::grid::{in_grid, moved, wrap};

verus! {

/// Time in whole milliseconds.
pub type Milliseconds = u64;

/// One cell of the grid, addressed by column `x` and row `y`.
#[derive(Clone, Copy, Debug, PartialEq, Eq, Structural)]
pub struct Node {
    pub x: i32,
    pub y: i32,
}

impl Node {
    /// Two cells are the same cell exactly when both coordinates agree.
    pub fn eq(&self, other_node: Node) -> (same: bool)
        ensures
            same == (*self == other_node),
            same == (self.x == other_node.x && self.y == other_node.y),
    {
        self.x == other_node.x && self.y == other_node.y
    }
}

/// Where a segment is parked between being appended to the tail and the next
/// move: off the grid, so that it coincides with no cell of the playfield.
pub open spec fn placeholder() -> Node {
    Node { x: -1i32, y: -1i32 }
}

/// The four directions in which the snake can head.
#[derive(Clone, Copy, Debug, PartialEq, Eq, Structural)]
pub enum Direction {
    Up,
    Down,
    Right,
    Left,
}

impl Direction {
    /// The direction that points the other way.
    pub open spec fn opposite(self) -> Direction {
        match self {
            Direction::Up => Direction::Down,
            Direction::Down => Direction::Up,
            Direction::Right => Direction::Left,
            Direction::Left => Direction::Right,
        }
    }

    /// The unit displacement of one move; rows grow downwards.
    pub open spec fn vector(self) -> (int, int) {
        match self {
            Direction::Up => (0, -1),
            Direction::Down => (0, 1),
            Direction::Right => (1, 0),
            Direction::Left => (-1, 0),
        }
    }

    /// Computes [`Direction::opposite`].
    pub fn reversed(self) -> (d: Direction)
        ensures
            d == self.opposite(),
    {
        match self {
            Direction::Up => Direction::Down,
            Direction::Down => Direction::Up,
            Direction::Right => Direction::Left,
            Direction::Left => Direction::Right,
        }
    }

    /// Computes [`Direction::vector`].
    pub fn unit_vector(self) -> (v: (i32, i32))
        ensures
            v.0 == self.vector().0,
            v.1 == self.vector().1,
    {
        match self {
            Direction::Up => (0, -1),
            Direction::Down => (0, 1),
            Direction::Right => (1, 0),
            Direction::Left => (-1, 0),
        }
    }
}

/// Every direction has exactly one opposite, which is another direction and
/// whose own opposite it is; the two moves undo each other.
pub proof fn lemma_opposite_pairs(d: Direction, e: Direction)
    ensures
        d.opposite() != d,
        d.opposite().opposite() == d,
        e.opposite() == d <==> e == d.opposite(),
        d.vector().0 + d.opposite().vector().0 == 0,
        d.vector().1 + d.opposite().vector().1 == 0,
{
}

/// The snake's body and how it is moving.
pub struct Snake {
    /// The body, head first.
    pub nodes: Vec<Node>,
    /// The direction of the next move.
    pub direction: Direction,
    pub is_alive: bool,
    /// While set, the snake moves after half the delay.
    pub is_turbo: bool,
    /// Time between two moves.
    pub movement_delay: Milliseconds,
    /// Time gathered since the last move.
    pub last_movement_duration: Milliseconds,
}

/// The snake as a mathematical value.
pub struct SnakeView {
    pub nodes: Seq<Node>,
    pub direction: Direction,
    pub is_alive: bool,
    pub is_turbo: bool,
    pub movement_delay: int,
    pub last_movement_duration: int,
}

impl View for Snake {
    type V = SnakeView;

    open spec fn view(&self) -> SnakeView {
        SnakeView {
            nodes: self.nodes@,
            direction: self.direction,
            is_alive: self.is_alive,
            is_turbo: self.is_turbo,
            movement_delay: self.movement_delay as int,
            last_movement_duration: self.last_movement_duration as int,
        }
    }
}

/// The body after one move by `(dx, dy)`: the head moves and wraps, and every
/// other segment takes the place that the segment ahead of it had before the
/// move. The place of the last segment is given up.
pub open spec fn shifted(nodes: Seq<Node>, dx: int, dy: int, config: Config) -> Seq<Node>
    recommends
        nodes.len() >= 1,
{
    seq![moved(nodes[0], dx, dy, config)] + nodes.drop_last()
}

impl Snake {
    /// The snake has a head.
    pub open spec fn wf(&self) -> bool {
        self.nodes@.len() >= 1
    }

    /// Switches turbo on or off.
    pub fn set_turbo(&mut self, is_turbo: bool)
        ensures
            final(self)@ == (SnakeView { is_turbo: is_turbo, ..old(self)@ }),
    {
        self.is_turbo = is_turbo;
    }

    /// Sets the direction of the next move. Nothing is checked here: whether
    /// a requested direction may be taken is decided before, by
    /// [`crate::input::accept`].
    pub fn set_direction(&mut self, direction: Direction)
        ensures
            final(self)@ == (SnakeView { direction: direction, ..old(self)@ }),
    {
        self.direction = direction;
    }

    /// Moves the whole body by one synchronized shift: the head goes to the
    /// wrapped neighbour cell in direction `(x_change, y_change)`, each other
    /// segment to where its predecessor was.
    pub fn update_node_locations(&mut self, x_change: i32, y_change: i32, config: Config)
        requires
            old(self).wf(),
            config.wf(),
        ensures
            final(self)@ == (SnakeView {
                nodes: shifted(old(self)@.nodes, x_change as int, y_change as int, config),
                ..old(self)@
            }),
            final(self).wf(),
    {
        let count: usize = self.nodes.len();
        let head: Node = wrap(self.nodes[0], x_change, y_change, config);
        let mut next: Vec<Node> = Vec::new();
        next.push(head);
        let mut i: usize = 0;
        while i + 1 < count
            invariant
                count == self.nodes@.len(),
                count >= 1,
                i + 1 <= count,
                next@ == seq![head] + self.nodes@.subrange(0, i as int),
            decreases count - i,
        {
            next.push(self.nodes[i]);
            i += 1;
        }
        self.nodes = next;
    }
}

/// After a move every segment behind the head sits where the segment ahead
/// of it sat before the move, the head sits on the wrapped neighbour of the
/// old head, and the length is unchanged.
pub proof fn lemma_synchronized_shift(nodes: Seq<Node>, dx: int, dy: int, config: Config)
    requires
        nodes.len() >= 1,
    ensures
        shifted(nodes, dx, dy, config).len() == nodes.len(),
        shifted(nodes, dx, dy, config)[0] == moved(nodes[0], dx, dy, config),
        forall|i: int|
            1 <= i < nodes.len() ==> #[trigger] shifted(nodes, dx, dy, config)[i] == nodes[i - 1],
{
}

/// A segment appended at the placeholder is on the grid after the very next
/// move: if every segment was on the grid before one was appended, then
/// after one move all segments are, none is left at the placeholder, and the
/// appended one has taken the place of the old tail.
pub proof fn lemma_growth_realized(nodes: Seq<Node>, dx: int, dy: int, config: Config)
    requires
        config.wf(),
        nodes.len() >= 1,
        forall|i: int| 0 <= i < nodes.len() ==> in_grid(config, #[trigger] nodes[i]),
    ensures
        ({
            let grown = nodes.push(placeholder());
            let after = shifted(grown, dx, dy, config);
            &&& grown.len() == nodes.len() + 1
            &&& after.len() == nodes.len() + 1
            &&& after.last() == nodes.last()
            &&& forall|i: int| 0 <= i < after.len() ==> in_grid(config, #[trigger] after[i])
            &&& forall|i: int| 0 <= i < after.len() ==> #[trigger] after[i] != placeholder()
        }),
{
}

} // verus!
