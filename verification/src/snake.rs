use vstd::prelude::*;
use crate::grid::{in_grid, neighbour, Direction, Vec2};

verus! {

/// Number of segments of a fresh snake.
pub const START_LEN: usize = 3;

/// Whether some segment of `body` lies on `(x, y)`.
pub open spec fn occupies(body: Seq<Vec2>, x: int, y: int) -> bool {
    exists|i: int| 0 <= i < body.len() && (#[trigger] body[i]).x == x && body[i].y == y
}

/// Whether every segment of `body` lies on the grid of side `cell_nb`.
pub open spec fn body_in_grid(body: Seq<Vec2>, cell_nb: int) -> bool {
    forall|i: int| 0 <= i < body.len() ==> in_grid((#[trigger] body[i]).x as int, body[i].y as int, cell_nb)
}

/// The body of a fresh snake on a grid of side `cell_nb`: three segments in
/// a row, the head at the middle of the grid and the tail to its east.
pub open spec fn start_body(cell_nb: int) -> Seq<Vec2> {
    Seq::new(
        START_LEN as nat,
        |i: int| (Vec2 { x: (cell_nb / 2 + i) as i32, y: (cell_nb / 2) as i32 }),
    )
}

/// Whether a move of `body` along `dir` on a grid of side `cell_nb`
/// succeeds: the cell next to the head lies on the grid and on no segment
/// of the body.
pub open spec fn can_advance(body: Seq<Vec2>, dir: Direction, cell_nb: int) -> bool {
    let target = neighbour(body[0], dir);
    in_grid(target.0, target.1, cell_nb) && !occupies(body, target.0, target.1)
}

/// The body after a successful move along `dir`: the cell next to the head
/// becomes the head and each other segment takes the place of the one
/// before it.
pub open spec fn advanced(body: Seq<Vec2>, dir: Direction) -> Seq<Vec2> {
    let target = neighbour(body[0], dir);
    Seq::new(
        body.len(),
        |i: int|
            if i == 0 {
                Vec2 { x: target.0 as i32, y: target.1 as i32 }
            } else {
                body[i - 1]
            },
    )
}

/// The body after growing: the tail segment once more at the end.
pub open spec fn grown(body: Seq<Vec2>) -> Seq<Vec2> {
    body.push(body.last())
}

/// The agent: an ordered body, head first, and a heading.
#[derive(Clone, Debug)]
pub struct Snake {
    pub body: Vec<Vec2>,
    pub dir: Direction,
}

impl Snake {
    /// A snake has a head.
    pub open spec fn wf(&self) -> bool {
        self.body@.len() >= 1
    }

    /// A fresh snake for a grid of side `cell_nb`, with no heading yet.
    pub fn new(cell_nb: i32) -> (s: Snake)
        requires
            cell_nb >= 0,
        ensures
            s.body@ == start_body(cell_nb as int),
            s.dir == Direction::Undecided,
            s.wf(),
    {
        let mid: i32 = cell_nb / 2;
        let mut body: Vec<Vec2> = Vec::new();
        let mut i: i32 = 0;
        while i < 3
            invariant
                0 <= i <= 3,
                mid == cell_nb / 2,
                0 <= mid <= i32::MAX / 2,
                body@.len() == i,
                forall|k: int| 0 <= k < i ==> #[trigger] body@[k] == (Vec2 { x: (mid + k) as i32, y: mid }),
            decreases 3 - i,
        {
            body.push(Vec2 { x: mid + i, y: mid });
            i += 1;
        }
        assert(body@ =~= start_body(cell_nb as int));
        Snake { body, dir: Direction::Undecided }
    }

    /// Appends a copy of the tail segment.
    pub fn grow(&mut self)
        requires
            old(self).wf(),
        ensures
            final(self).body@ == grown(old(self).body@),
            final(self).dir == old(self).dir,
    {
        let last = self.body[self.body.len() - 1];
        self.body.push(Vec2 { x: last.x, y: last.y });
    }

    /// Moves one step along the heading on a grid of side `cell_nb`.
    /// Returns `false`, and leaves the snake as it was, when the target
    /// cell is off the grid or on the body.
    pub fn move_forward(&mut self, cell_nb: i32) -> (alive: bool)
        requires
            old(self).wf(),
        ensures
            alive == can_advance(old(self).body@, old(self).dir, cell_nb as int),
            alive ==> final(self).body@ == advanced(old(self).body@, old(self).dir),
            !alive ==> final(self).body@ == old(self).body@,
            final(self).dir == old(self).dir,
    {
        let head = self.body[0];
        let hx: i64 = head.x as i64;
        let hy: i64 = head.y as i64;
        let (nx, ny): (i64, i64) = match self.dir {
            Direction::N => (hx, hy - 1),
            Direction::S => (hx, hy + 1),
            Direction::W => (hx - 1, hy),
            Direction::E => (hx + 1, hy),
            Direction::Undecided => (hx, hy),
        };
        assert(neighbour(self.body@[0], self.dir) == (nx as int, ny as int));

        if nx < 0 || nx >= cell_nb as i64 || ny < 0 || ny >= cell_nb as i64 {
            return false;
        }
        let len = self.body.len();
        let mut i: usize = 0;
        while i < len
            invariant
                0 <= i <= len,
                len == self.body@.len(),
                *self == *old(self),
                neighbour(old(self).body@[0], old(self).dir) == (nx as int, ny as int),
                forall|k: int| 0 <= k < i ==> !((#[trigger] self.body@[k]).x == nx && self.body@[k].y == ny),
            decreases len - i,
        {
            let part = self.body[i];
            if part.x as i64 == nx && part.y as i64 == ny {
                assert(self.body@[i as int].x == nx && self.body@[i as int].y == ny);
                return false;
            }
            i += 1;
        }

        let new_pos = Vec2 { x: nx as i32, y: ny as i32 };
        let mut index: usize = len - 1;
        while index > 0
            invariant
                0 <= index < len,
                len == self.body@.len(),
                len == old(self).body@.len(),
                self.dir == old(self).dir,
                forall|k: int| 0 <= k <= index ==> #[trigger] self.body@[k] == old(self).body@[k],
                forall|k: int| index < k < len ==> #[trigger] self.body@[k] == old(self).body@[k - 1],
            decreases index,
        {
            let prev = self.body[index - 1];
            self.body.set(index, prev);
            index -= 1;
        }
        self.body.set(0, new_pos);
        assert(self.body@ =~= advanced(old(self).body@, old(self).dir));
        true
    }
}

} // verus!
