use vstd::prelude::*;
use crate::grid::{in_grid, Direction, Vec2, EMPTY, FOOD, HEAD, SNAKE};
use crate::random::draw_below;
use crate::snake::{advanced, body_in_grid, can_advance, grown, occupies, Snake};

verus! {

/// Number of ticks after which a game ends, whatever the snake does.
pub const TICK_CAP: u64 = 50;

/// One game: a square grid of side `cell_nb` with one snake and one piece
/// of food on it, the number of pieces eaten, the number of ticks played,
/// and whether the game has ended.
#[derive(Clone, Debug)]
pub struct Game {
    pub cell_nb: i32,
    pub snake: Snake,
    pub food: Vec2,
    pub game_over: bool,
    pub score: u64,
    pub time_alive: u64,
}

/// The mathematical value of a game.
pub struct GameView {
    pub cell_nb: int,
    pub body: Seq<Vec2>,
    pub dir: Direction,
    pub food: Vec2,
    pub game_over: bool,
    pub score: nat,
    pub time_alive: nat,
}

impl View for Game {
    type V = GameView;

    open spec fn view(&self) -> GameView {
        GameView {
            cell_nb: self.cell_nb as int,
            body: self.snake.body@,
            dir: self.snake.dir,
            food: self.food,
            game_over: self.game_over,
            score: self.score as nat,
            time_alive: self.time_alive as nat,
        }
    }
}

/// The game at the start of a generation.
pub open spec fn fresh(cell_nb: int, body: Seq<Vec2>, dir: Direction, food: Vec2) -> GameView {
    GameView { cell_nb, body, dir, food, game_over: false, score: 0, time_alive: 0 }
}

/// The body after the move of one tick, before any growth: it advances
/// where the move succeeds and stays where it does not.
pub open spec fn body_after_move(g: GameView, decision: Direction) -> Seq<Vec2> {
    if can_advance(g.body, decision, g.cell_nb) {
        advanced(g.body, decision)
    } else {
        g.body
    }
}

/// Whether the snake eats in the tick that takes `decision`: the game is
/// running and after the move the head lies on the food.
pub open spec fn eats(g: GameView, decision: Direction) -> bool {
    !g.game_over && body_after_move(g, decision)[0] == g.food
}

/// The game after one tick that takes `decision`, with the food left where
/// it was. A game that has ended does not change. Otherwise the tick
/// counter goes up by one, the snake takes the heading and moves, the game
/// ends if the move fails or the counter has passed the cap, and a snake
/// whose head lies on the food grows and scores.
pub open spec fn transition(g: GameView, decision: Direction) -> GameView {
    if g.game_over {
        g
    } else {
        let moved = body_after_move(g, decision);
        GameView {
            cell_nb: g.cell_nb,
            body: if eats(g, decision) { grown(moved) } else { moved },
            dir: decision,
            food: g.food,
            game_over: !can_advance(g.body, decision, g.cell_nb) || g.time_alive + 1 > TICK_CAP,
            score: if eats(g, decision) { g.score + 1 } else { g.score },
            time_alive: g.time_alive + 1,
        }
    }
}

/// The same game with the food at `food`.
pub open spec fn with_food_at(g: GameView, food: Vec2) -> GameView {
    GameView { food, ..g }
}

/// The place of cell `(x, y)` in the encoding of a grid of side `cell_nb`:
/// row after row.
pub open spec fn cell_index(x: int, y: int, cell_nb: int) -> int {
    y * cell_nb + x
}

/// Whether one of the first `count` segments of `body` lies on `(x, y)`.
pub open spec fn occupies_before(body: Seq<Vec2>, count: int, x: int, y: int) -> bool {
    exists|i: int| 0 <= i < count && (#[trigger] body[i]).x == x && body[i].y == y
}

/// The code of cell `(x, y)`: the head goes before the rest of the body,
/// the body before the food, and a cell with none of them is empty.
pub open spec fn code_at(g: GameView, x: int, y: int) -> i32 {
    if g.body[0].x == x && g.body[0].y == y {
        HEAD
    } else if occupies(g.body, x, y) {
        SNAKE
    } else if g.food.x == x && g.food.y == y {
        FOOD
    } else {
        EMPTY
    }
}

/// The code of cell `(x, y)` when only the food and the first `count`
/// segments have been drawn, none of them as a head.
pub open spec fn partial_code(g: GameView, count: int, x: int, y: int) -> i32 {
    if occupies_before(g.body, count, x, y) {
        SNAKE
    } else if g.food.x == x && g.food.y == y {
        FOOD
    } else {
        EMPTY
    }
}

/// Every cell of the grid has a place in the encoding.
pub proof fn lemma_cell_index_bound(x: int, y: int, cell_nb: int)
    requires
        in_grid(x, y, cell_nb),
    ensures
        0 <= cell_index(x, y, cell_nb) < cell_nb * cell_nb,
{
    assert(0 <= y * cell_nb + x < cell_nb * cell_nb) by (nonlinear_arith)
        requires
            0 <= x < cell_nb,
            0 <= y < cell_nb,
    ;
}

/// No two cells of the grid share a place in the encoding.
pub proof fn lemma_cell_index_injective(x1: int, y1: int, x2: int, y2: int, cell_nb: int)
    requires
        in_grid(x1, y1, cell_nb),
        in_grid(x2, y2, cell_nb),
        cell_index(x1, y1, cell_nb) == cell_index(x2, y2, cell_nb),
    ensures
        x1 == x2,
        y1 == y2,
{
    assert(y1 == y2) by (nonlinear_arith)
        requires
            0 <= x1 < cell_nb,
            0 <= x2 < cell_nb,
            y1 * cell_nb + x1 == y2 * cell_nb + x2,
    ;
}

/// Every place in the encoding belongs to a cell of the grid: to the one
/// in column `i % cell_nb` of row `i / cell_nb`.
pub proof fn lemma_cell_index_onto(i: int, cell_nb: int)
    requires
        cell_nb > 0,
        0 <= i < cell_nb * cell_nb,
    ensures
        in_grid(i % cell_nb, i / cell_nb, cell_nb),
        cell_index(i % cell_nb, i / cell_nb, cell_nb) == i,
{
    vstd::arithmetic::div_mod::lemma_fundamental_div_mod(i, cell_nb);
    vstd::arithmetic::div_mod::lemma_mod_bound(i, cell_nb);
    let q = i / cell_nb;
    let r = i % cell_nb;
    assert(i == cell_nb * q + r);
    assert(0 <= q < cell_nb) by (nonlinear_arith)
        requires
            0 <= r < cell_nb,
            0 <= cell_nb * q + r < cell_nb * cell_nb,
    ;
    assert(q * cell_nb + r == i) by (nonlinear_arith)
        requires
            i == cell_nb * q + r,
    ;
}

impl Game {
    /// The grid has a side, the snake and the food lie on it, a game past
    /// the tick cap has ended, and no tick scores twice.
    pub open spec fn wf(&self) -> bool {
        &&& self.cell_nb > 0
        &&& self.snake.wf()
        &&& body_in_grid(self.snake.body@, self.cell_nb as int)
        &&& in_grid(self.food.x as int, self.food.y as int, self.cell_nb as int)
        &&& self.time_alive <= TICK_CAP + 1
        &&& self.time_alive > TICK_CAP ==> self.game_over
        &&& self.score <= self.time_alive
    }

    /// A game at its start, with the food at `food`.
    pub fn with_food(cell_nb: i32, snake: Snake, food: Vec2) -> (g: Game)
        requires
            cell_nb > 0,
            snake.wf(),
            body_in_grid(snake.body@, cell_nb as int),
            in_grid(food.x as int, food.y as int, cell_nb as int),
        ensures
            g@ == fresh(cell_nb as int, snake.body@, snake.dir, food),
            g.wf(),
    {
        Game { cell_nb, snake, food, game_over: false, score: 0, time_alive: 0 }
    }

    /// A game at its start, with the food on a cell drawn from `rng`.
    pub fn new(cell_nb: i32, snake: Snake, rng: &mut rand::rngs::StdRng) -> (g: Game)
        requires
            cell_nb > 0,
            snake.wf(),
            body_in_grid(snake.body@, cell_nb as int),
        ensures
            g@ == fresh(cell_nb as int, snake.body@, snake.dir, g.food),
            g.wf(),
    {
        let food = draw_cell(cell_nb, rng);
        Game::with_food(cell_nb, snake, food)
    }

    /// The value by which a game is selected: the number of ticks played.
    pub fn fitness(&self) -> (f: u64)
        ensures
            f == self.time_alive,
    {
        self.time_alive
    }

    /// Encodes the grid as one code per cell, row after row.
    pub fn encode(&self) -> (cells: Vec<i32>)
        requires
            self.wf(),
            self.cell_nb * self.cell_nb <= usize::MAX,
        ensures
            cells@.len() == self.cell_nb * self.cell_nb,
            forall|x: int, y: int|
                in_grid(x, y, self.cell_nb as int) ==> {
                    &&& 0 <= #[trigger] cell_index(x, y, self.cell_nb as int) < cells@.len()
                    &&& cells@[cell_index(x, y, self.cell_nb as int)] == code_at(self@, x, y)
                },
    {
        let n: usize = self.cell_nb as usize;
        let total: usize = n * n;
        let ghost g = self@;
        let ghost side = self.cell_nb as int;
        let mut cells: Vec<i32> = Vec::new();
        let mut k: usize = 0;
        while k < total
            invariant
                0 <= k <= total,
                cells@.len() == k,
                forall|j: int| 0 <= j < k ==> cells@[j] == EMPTY,
            decreases total - k,
        {
            cells.push(EMPTY);
            k += 1;
        }
        let food_at = self.place_of(self.food);
        cells.set(food_at, FOOD);
        assert forall|x: int, y: int| in_grid(x, y, side) implies 0 <= #[trigger] cell_index(
            x,
            y,
            side,
        ) < total && cells@[cell_index(x, y, side)] == partial_code(g, 0, x, y) by {
            lemma_cell_index_bound(x, y, side);
            if cell_index(x, y, side) == food_at {
                lemma_cell_index_injective(x, y, self.food.x as int, self.food.y as int, side);
            }
        }
        let len = self.snake.body.len();
        let mut i: usize = 0;
        while i < len
            invariant
                0 <= i <= len,
                len == self.snake.body@.len(),
                self.wf(),
                g == self@,
                side == self.cell_nb as int,
                total == side * side,
                cells@.len() == total,
                forall|x: int, y: int|
                    in_grid(x, y, side) ==> 0 <= #[trigger] cell_index(x, y, side) < total
                        && cells@[cell_index(x, y, side)] == partial_code(g, i as int, x, y),
            decreases len - i,
        {
            let part = self.snake.body[i];
            let at = self.place_of(part);
            let ghost before = cells@;
            cells.set(at, SNAKE);
            assert forall|x: int, y: int| in_grid(x, y, side) implies 0 <= #[trigger] cell_index(
                x,
                y,
                side,
            ) < total && cells@[cell_index(x, y, side)] == partial_code(g, i + 1, x, y) by {
                lemma_cell_index_bound(x, y, side);
                if cell_index(x, y, side) == at {
                    lemma_cell_index_injective(x, y, part.x as int, part.y as int, side);
                    assert(g.body[i as int].x == x && g.body[i as int].y == y);
                } else {
                    assert(cells@[cell_index(x, y, side)] == before[cell_index(x, y, side)]);
                    if occupies_before(g.body, i + 1, x, y) {
                        let w = choose|w: int|
                            0 <= w < i + 1 && (#[trigger] g.body[w]).x == x && g.body[w].y == y;
                        assert(w != i);
                        assert(occupies_before(g.body, i as int, x, y));
                    }
                }
            }
            i += 1;
        }
        let head_at = self.place_of(self.snake.body[0]);
        let ghost before = cells@;
        cells.set(head_at, HEAD);
        assert forall|x: int, y: int| in_grid(x, y, side) implies 0 <= #[trigger] cell_index(
            x,
            y,
            side,
        ) < total && cells@[cell_index(x, y, side)] == code_at(g, x, y) by {
            lemma_cell_index_bound(x, y, side);
            assert(occupies(g.body, x, y) == occupies_before(g.body, len as int, x, y));
            if cell_index(x, y, side) == head_at {
                lemma_cell_index_injective(
                    x,
                    y,
                    g.body[0].x as int,
                    g.body[0].y as int,
                    side,
                );
            } else {
                assert(cells@[cell_index(x, y, side)] == before[cell_index(x, y, side)]);
            }
        }
        cells
    }

    /// The place of `cell` in the encoding.
    fn place_of(&self, cell: Vec2) -> (at: usize)
        requires
            self.cell_nb > 0,
            self.cell_nb * self.cell_nb <= usize::MAX,
            in_grid(cell.x as int, cell.y as int, self.cell_nb as int),
        ensures
            at == cell_index(cell.x as int, cell.y as int, self.cell_nb as int),
            at < self.cell_nb * self.cell_nb,
    {
        proof {
            lemma_cell_index_bound(cell.x as int, cell.y as int, self.cell_nb as int);
            assert(0 <= cell.y * self.cell_nb <= self.cell_nb * self.cell_nb) by (nonlinear_arith)
                requires
                    0 <= cell.y < self.cell_nb,
            ;
        }
        cell.y as usize * (self.cell_nb as usize) + cell.x as usize
    }

    /// Plays one tick with the food left in place, and tells whether the
    /// snake ate, so that the food has to move.
    pub fn advance(&mut self, decision: Direction) -> (ate: bool)
        requires
            old(self).wf(),
        ensures
            final(self)@ == transition(old(self)@, decision),
            ate == eats(old(self)@, decision),
            final(self).wf(),
    {
        if self.game_over {
            return false;
        }
        self.snake.dir = decision;
        self.time_alive = self.time_alive + 1;
        let cell_nb = self.cell_nb;
        if !self.snake.move_forward(cell_nb) {
            self.game_over = true;
        }
        if self.time_alive > TICK_CAP {
            self.game_over = true;
        }
        let head = self.snake.body[0];
        if head.x == self.food.x && head.y == self.food.y {
            self.snake.grow();
            self.score = self.score + 1;
            true
        } else {
            false
        }
    }

    /// Puts the food on `food`.
    pub fn place_food(&mut self, food: Vec2)
        requires
            old(self).wf(),
            in_grid(food.x as int, food.y as int, old(self).cell_nb as int),
        ensures
            final(self)@ == with_food_at(old(self)@, food),
            final(self).wf(),
    {
        self.food = food;
    }

    /// Plays one tick: the transition, and where the snake ate, new food on
    /// a cell drawn from `rng`.
    pub fn step(&mut self, decision: Direction, rng: &mut rand::rngs::StdRng)
        requires
            old(self).wf(),
        ensures
            final(self)@ == with_food_at(transition(old(self)@, decision), final(self).food),
            !eats(old(self)@, decision) ==> final(self).food == old(self).food,
            final(self).wf(),
    {
        if self.advance(decision) {
            let cell_nb = self.cell_nb;
            let food = draw_cell(cell_nb, rng);
            self.place_food(food);
        }
    }
}

/// The cell that two draws stand for: the first is its column, the second
/// its row.
pub fn cell_from_draws(column: u64, row: u64) -> (cell: Vec2)
    requires
        column <= i32::MAX,
        row <= i32::MAX,
    ensures
        cell.x == column,
        cell.y == row,
{
    Vec2 { x: column as i32, y: row as i32 }
}

/// A cell of the grid of side `cell_nb`, drawn from `rng`: first the
/// column, then the row, each below `cell_nb`. Which cell comes out is up
/// to the generator; `cell_from_draws` says what cell each pair of draws
/// gives.
pub fn draw_cell(cell_nb: i32, rng: &mut rand::rngs::StdRng) -> (cell: Vec2)
    requires
        cell_nb > 0,
    ensures
        in_grid(cell.x as int, cell.y as int, cell_nb as int),
{
    let column = draw_below(rng, cell_nb as u64);
    let row = draw_below(rng, cell_nb as u64);
    cell_from_draws(column, row)
}

} // verus!
