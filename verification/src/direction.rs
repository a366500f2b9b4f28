//! The four movement directions and their coordinate algebra.

use vstd::prelude::*;
use crate::Coord;

verus! {

/// One of the four axis-aligned movement directions.
///
/// Both the instruction pointer and the memory pointer move along these;
/// the initial direction of every thread is `Right`.
#[derive(Debug, Clone, Copy, PartialEq, Eq, Structural)]
pub enum Direction {
    Right,
    Down,
    Left,
    Up,
}

impl Default for Direction {
    /// The default direction is `Right`.
    fn default() -> (r: Self)
        ensures
            r == Direction::Right,
    {
        Direction::Right
    }
}

/// What `Direction::advance` returns: the coordinate shifted `by` cells along
/// the direction's axis, or `None` where the motion would leave the
/// representable coordinate range (below zero for `Left`/`Up`, above
/// `usize::MAX` for `Right`/`Down`).
pub open spec fn dir_advance(d: Direction, c: Coord, by: int) -> Option<Coord> {
    match d {
        Direction::Right => if c.0 + by <= usize::MAX {
            Some(((c.0 + by) as usize, c.1))
        } else {
            None
        },
        Direction::Down => if c.1 + by <= usize::MAX {
            Some((c.0, (c.1 + by) as usize))
        } else {
            None
        },
        Direction::Left => if c.0 - by >= 0 {
            Some(((c.0 - by) as usize, c.1))
        } else {
            None
        },
        Direction::Up => if c.1 - by >= 0 {
            Some((c.0, (c.1 - by) as usize))
        } else {
            None
        },
    }
}

/// The turn taken on a `\` cell: Right<->Down and Left<->Up.
pub open spec fn turn_lurd(d: Direction) -> Direction {
    match d {
        Direction::Right => Direction::Down,
        Direction::Down => Direction::Right,
        Direction::Left => Direction::Up,
        Direction::Up => Direction::Left,
    }
}

/// The turn taken on a `/` cell: Right<->Up and Down<->Left.
pub open spec fn turn_ruld(d: Direction) -> Direction {
    match d {
        Direction::Right => Direction::Up,
        Direction::Down => Direction::Left,
        Direction::Left => Direction::Down,
        Direction::Up => Direction::Right,
    }
}

impl Direction {
    /// Advances a coordinate in this direction by a certain distance.
    ///
    /// Returns `None` where the result would lie left of / above `(0,0)`,
    /// or where it would not be representable: motion refused, not a crash.
    pub fn advance(self, c: Coord, by: usize) -> (r: Option<Coord>)
        ensures
            r == dir_advance(self, c, by as int),
    {
        match self {
            Direction::Right => match c.0.checked_add(by) {
                Some(v) => Some((v, c.1)),
                None => None,
            },
            Direction::Down => match c.1.checked_add(by) {
                Some(v) => Some((c.0, v)),
                None => None,
            },
            Direction::Left => match c.0.checked_sub(by) {
                Some(v) => Some((v, c.1)),
                None => None,
            },
            Direction::Up => match c.1.checked_sub(by) {
                Some(v) => Some((c.0, v)),
                None => None,
            },
        }
    }

    /// The direction after a `\` cell.
    pub fn turned_lurd(self) -> (r: Direction)
        ensures
            r == turn_lurd(self),
    {
        match self {
            Direction::Right => Direction::Down,
            Direction::Down => Direction::Right,
            Direction::Left => Direction::Up,
            Direction::Up => Direction::Left,
        }
    }

    /// The direction after a `/` cell.
    pub fn turned_ruld(self) -> (r: Direction)
        ensures
            r == turn_ruld(self),
    {
        match self {
            Direction::Right => Direction::Up,
            Direction::Down => Direction::Left,
            Direction::Left => Direction::Down,
            Direction::Up => Direction::Right,
        }
    }
}

} // verus!
