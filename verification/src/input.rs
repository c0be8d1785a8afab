//! Keys and the rule by which a queued direction request is accepted.

use vstd::prelude::*;
use crate::snake::Direction;

verus! {

/// The keys that the game tells apart; every other key is `Other`.
#[derive(Clone, Copy, Debug, PartialEq, Eq, Structural)]
pub enum Key {
    Up,
    Down,
    Right,
    Left,
    W,
    A,
    S,
    D,
    LShift,
    Space,
    Other,
}

impl Key {
    /// The direction that a key asks for: the arrow keys and W, A, S, D.
    pub open spec fn direction(self) -> Option<Direction> {
        match self {
            Key::Up | Key::W => Some(Direction::Up),
            Key::Down | Key::S => Some(Direction::Down),
            Key::Right | Key::D => Some(Direction::Right),
            Key::Left | Key::A => Some(Direction::Left),
            _ => None,
        }
    }

    /// Computes [`Key::direction`].
    pub fn requested_direction(self) -> (d: Option<Direction>)
        ensures
            d == self.direction(),
    {
        match self {
            Key::Up | Key::W => Some(Direction::Up),
            Key::Down | Key::S => Some(Direction::Down),
            Key::Right | Key::D => Some(Direction::Right),
            Key::Left | Key::A => Some(Direction::Left),
            _ => None,
        }
    }
}

/// The direction after a request has been taken from the queue: a request
/// for the exact opposite of the current direction is dropped, any other
/// request becomes the direction.
pub open spec fn accepted(current: Direction, requested: Direction) -> Direction {
    if requested == current.opposite() {
        current
    } else {
        requested
    }
}

/// The direction of the next move, given the requests that wait: only the
/// oldest request is looked at.
pub open spec fn resolve_direction(current: Direction, queue: Seq<Direction>) -> Direction {
    if queue.len() == 0 {
        current
    } else {
        accepted(current, queue[0])
    }
}

/// Computes [`accepted`].
pub fn accept(current: Direction, requested: Direction) -> (d: Direction)
    ensures
        d == accepted(current, requested),
{
    if requested == current.reversed() {
        current
    } else {
        requested
    }
}

/// A request to turn straight back never changes the direction, and any
/// other request always does.
pub proof fn lemma_no_reversal(current: Direction, requested: Direction)
    ensures
        accepted(current, current.opposite()) == current,
        accepted(current, requested) != current.opposite(),
        requested != current.opposite() ==> accepted(current, requested) == requested,
{
}

} // verus!
