use vstd::prelude::*;

verus! {

/// Code of a cell that holds nothing.
pub const EMPTY: i32 = 0;

/// Code of the cell that holds the food.
pub const FOOD: i32 = 1;

/// Code of a cell that holds a body segment other than the head.
pub const SNAKE: i32 = 2;

/// Code of the cell that holds the head.
pub const HEAD: i32 = 3;

/// A heading: one of the four cardinal directions, or `Undecided` before the
/// first decision has been taken.
#[derive(Clone, Copy, Debug, PartialEq, Eq, Structural)]
pub enum Direction {
    N,
    S,
    W,
    E,
    Undecided,
}

/// A grid cell.
#[derive(Clone, Copy, Debug, PartialEq, Eq, Structural)]
pub struct Vec2 {
    pub x: i32,
    pub y: i32,
}

/// Whether `(x, y)` lies on the square grid of side `cell_nb`.
pub open spec fn in_grid(x: int, y: int, cell_nb: int) -> bool {
    0 <= x < cell_nb && 0 <= y < cell_nb
}

/// The cell one step away from `head` in direction `dir`. An undecided
/// heading does not move.
pub open spec fn neighbour(head: Vec2, dir: Direction) -> (int, int) {
    match dir {
        Direction::N => (head.x as int, head.y - 1),
        Direction::S => (head.x as int, head.y + 1),
        Direction::W => (head.x - 1, head.y as int),
        Direction::E => (head.x + 1, head.y as int),
        Direction::Undecided => (head.x as int, head.y as int),
    }
}

/// The direction that the index of the strongest output stands for.
pub open spec fn direction_of(index: int) -> Direction {
    if index == 0 {
        Direction::N
    } else if index == 1 {
        Direction::S
    } else if index == 2 {
        Direction::W
    } else {
        Direction::E
    }
}

/// Whether `a` and `b` point along the same axis.
pub open spec fn same_axis(a: Direction, b: Direction) -> bool {
    ||| (a == Direction::N || a == Direction::S) && (b == Direction::N || b == Direction::S)
    ||| (a == Direction::W || a == Direction::E) && (b == Direction::W || b == Direction::E)
}

impl Vec2 {
    /// The origin.
    pub fn new() -> (v: Vec2)
        ensures
            v.x == 0,
            v.y == 0,
    {
        Vec2 { x: 0, y: 0 }
    }
}

impl Direction {
    /// Reads a decision off the index of the strongest output: 0 is north,
    /// 1 south, 2 west, and every other index east.
    pub fn from_output_index(index: usize) -> (dir: Direction)
        ensures
            dir == direction_of(index as int),
    {
        if index == 0 {
            Direction::N
        } else if index == 1 {
            Direction::S
        } else if index == 2 {
            Direction::W
        } else {
            Direction::E
        }
    }

    /// The heading after a manual request: the request is taken unless the
    /// current heading already lies on the requested axis, or nothing was
    /// requested.
    pub fn steer(self, requested: Direction) -> (dir: Direction)
        ensures
            dir == if requested == Direction::Undecided || same_axis(self, requested) {
                self
            } else {
                requested
            },
    {
        let vertical = self == Direction::N || self == Direction::S;
        let horizontal = self == Direction::W || self == Direction::E;
        match requested {
            Direction::N | Direction::S => if vertical { self } else { requested },
            Direction::W | Direction::E => if horizontal { self } else { requested },
            Direction::Undecided => self,
        }
    }
}

} // verus!
