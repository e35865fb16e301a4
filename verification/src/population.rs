use vstd::prelude::*;
use crate::game::{eats, fresh, transition, with_food_at, Game, TICK_CAP};
use crate::grid::Direction;
use crate::selection::{lemma_prefix_sum_capped, select_parents, total};
use crate::snake::{body_in_grid, start_body, Snake};

verus! {

/// The smallest grid side on which a fresh snake lies on the grid.
pub const MIN_CELL_NB: i32 = 5;

/// The number of games among the first `count` that have not ended.
pub open spec fn running(games: Seq<Game>, count: int) -> int
    decreases count,
{
    if count <= 0 {
        0
    } else {
        running(games, count - 1) + if games[count - 1].game_over {
            0int
        } else {
            1int
        }
    }
}

/// The fitness of every slot, in the order of the slots.
pub open spec fn fitness_of(games: Seq<Game>) -> Seq<u64> {
    Seq::new(games.len(), |i: int| games[i].time_alive)
}

/// Whether `game` is a game at its start on a grid of side `cell_nb`.
pub open spec fn at_start(game: Game, cell_nb: int) -> bool {
    game@ == fresh(cell_nb, start_body(cell_nb), Direction::Undecided, game.food)
}

/// The population: one game per slot, all on grids of one size, the number
/// of generations that have ended, and the number of games still running.
#[derive(Clone, Debug)]
pub struct Population {
    pub games: Vec<Game>,
    pub cell_nb: i32,
    pub generation: u64,
    pub alive: usize,
}

/// A fresh snake lies on every grid of side five or more.
pub proof fn lemma_start_body_in_grid(cell_nb: int)
    requires
        MIN_CELL_NB <= cell_nb <= i32::MAX,
    ensures
        body_in_grid(start_body(cell_nb), cell_nb),
{
}

/// No more games run than there are.
pub proof fn lemma_running_bounds(games: Seq<Game>, count: int)
    requires
        0 <= count,
    ensures
        0 <= running(games, count) <= count,
    decreases count,
{
    if count > 0 {
        lemma_running_bounds(games, count - 1);
    }
}

/// A running game among the first `count` is counted.
pub proof fn lemma_running_counts(games: Seq<Game>, count: int, index: int)
    requires
        0 <= index < count,
        !games[index].game_over,
    ensures
        running(games, count) >= 1,
    decreases count,
{
    lemma_running_bounds(games, count - 1);
    if index < count - 1 {
        lemma_running_counts(games, count - 1, index);
    }
}

/// The count is zero exactly when every game has ended.
pub proof fn lemma_running_zero(games: Seq<Game>, count: int)
    requires
        0 <= count,
    ensures
        running(games, count) == 0 <==> forall|i: int| 0 <= i < count ==> (#[trigger] games[i]).game_over,
    decreases count,
{
    if count > 0 {
        lemma_running_zero(games, count - 1);
        lemma_running_bounds(games, count - 1);
    }
}

/// Where no game has ended, all of them are counted.
pub proof fn lemma_running_all(games: Seq<Game>, count: int)
    requires
        0 <= count,
        forall|i: int| 0 <= i < count ==> !(#[trigger] games[i]).game_over,
    ensures
        running(games, count) == count,
    decreases count,
{
    if count > 0 {
        lemma_running_all(games, count - 1);
    }
}

/// Where two populations differ in slot `index` alone, their counts differ
/// by what that slot counts for.
pub proof fn lemma_running_update(before: Seq<Game>, after: Seq<Game>, count: int, index: int)
    requires
        0 <= count <= before.len(),
        before.len() == after.len(),
        0 <= index < before.len(),
        forall|j: int| 0 <= j < before.len() && j != index ==> after[j] == before[j],
    ensures
        running(after, count) == running(before, count) + if index < count {
            (if after[index].game_over { 0int } else { 1int }) - (if before[index].game_over {
                0int
            } else {
                1int
            })
        } else {
            0int
        },
    decreases count,
{
    if count > 0 {
        lemma_running_update(before, after, count - 1, index);
    }
}

/// The games of a new generation: every slot at its start, with food on a
/// cell drawn from `rng`.
pub fn fresh_games(size: usize, cell_nb: i32, rng: &mut rand::rngs::StdRng) -> (games: Vec<Game>)
    requires
        cell_nb >= MIN_CELL_NB,
    ensures
        games@.len() == size,
        forall|i: int|
            0 <= i < size ==> (#[trigger] games@[i]).wf() && games@[i].cell_nb == cell_nb
                && at_start(games@[i], cell_nb as int),
{
    let mut games: Vec<Game> = Vec::new();
    let mut i: usize = 0;
    while i < size
        invariant
            0 <= i <= size,
            cell_nb >= MIN_CELL_NB,
            games@.len() == i,
            forall|k: int|
                0 <= k < i ==> (#[trigger] games@[k]).wf() && games@[k].cell_nb == cell_nb
                    && at_start(games@[k], cell_nb as int),
        decreases size - i,
    {
        let snake = Snake::new(cell_nb);
        proof {
            lemma_start_body_in_grid(cell_nb as int);
        }
        let game = Game::new(cell_nb, snake, rng);
        games.push(game);
        i += 1;
    }
    games
}

impl Population {
    /// Every game is well formed and on the population's grid, the grid
    /// holds a fresh snake, the count of running games is right, and the
    /// total fitness fits the machine.
    pub open spec fn wf(&self) -> bool {
        &&& self.cell_nb >= MIN_CELL_NB
        &&& self.games@.len() * (TICK_CAP + 1) <= u64::MAX
        &&& forall|i: int|
            0 <= i < self.games@.len() ==> (#[trigger] self.games@[i]).wf() && self.games@[i].cell_nb
                == self.cell_nb
        &&& self.alive == running(self.games@, self.games@.len() as int)
    }

    /// A population of `size` slots at the start of the first generation.
    pub fn new(size: usize, cell_nb: i32, rng: &mut rand::rngs::StdRng) -> (p: Population)
        requires
            cell_nb >= MIN_CELL_NB,
            size * (TICK_CAP + 1) <= u64::MAX,
        ensures
            p.wf(),
            p.games@.len() == size,
            p.cell_nb == cell_nb,
            p.generation == 0,
            p.alive == size,
            forall|i: int| 0 <= i < size ==> at_start(#[trigger] p.games@[i], cell_nb as int),
    {
        let games = fresh_games(size, cell_nb, rng);
        proof {
            lemma_running_all(games@, size as int);
        }
        Population { games, cell_nb, generation: 0, alive: size }
    }

    /// Whether the generation has ended: no game runs any more.
    pub fn is_finished(&self) -> (done: bool)
        requires
            self.wf(),
        ensures
            done == (self.alive == 0),
            done == forall|i: int| 0 <= i < self.games@.len() ==> (#[trigger] self.games@[i]).game_over,
    {
        proof {
            lemma_running_zero(self.games@, self.games@.len() as int);
        }
        self.alive == 0
    }

    /// The fitness of every slot, in the order of the slots.
    pub fn fitness(&self) -> (values: Vec<u64>)
        ensures
            values@ == fitness_of(self.games@),
    {
        let mut values: Vec<u64> = Vec::new();
        let mut i: usize = 0;
        while i < self.games.len()
            invariant
                0 <= i <= self.games@.len(),
                values@.len() == i,
                forall|k: int| 0 <= k < i ==> values@[k] == self.games@[k].time_alive,
            decreases self.games@.len() - i,
        {
            values.push(self.games[i].fitness());
            i += 1;
        }
        assert(values@ =~= fitness_of(self.games@));
        values
    }

    /// Plays one tick of the game in slot `index` with `decision`. The other
    /// slots stay as they are, and a game that ends in this tick leaves the
    /// count of running games.
    pub fn step_slot(&mut self, index: usize, decision: Direction, rng: &mut rand::rngs::StdRng)
        requires
            old(self).wf(),
            index < old(self).games@.len(),
        ensures
            final(self).wf(),
            final(self).games@.len() == old(self).games@.len(),
            final(self).cell_nb == old(self).cell_nb,
            final(self).generation == old(self).generation,
            final(self).games@[index as int]@ == with_food_at(
                transition(old(self).games@[index as int]@, decision),
                final(self).games@[index as int].food,
            ),
            !eats(old(self).games@[index as int]@, decision) ==> final(self).games@[index as int].food
                == old(self).games@[index as int].food,
            forall|j: int|
                0 <= j < old(self).games@.len() && j != index ==> final(self).games@[j] == old(
                    self,
                ).games@[j],
            final(self).alive == old(self).alive - if !old(self).games@[index as int].game_over
                && final(self).games@[index as int].game_over {
                1int
            } else {
                0int
            },
    {
        let was_over = self.games[index].game_over;
        self.games[index].step(decision, rng);
        let is_over = self.games[index].game_over;
        proof {
            lemma_running_update(
                old(self).games@,
                self.games@,
                self.games@.len() as int,
                index as int,
            );
            if !was_over {
                lemma_running_counts(old(self).games@, self.games@.len() as int, index as int);
            }
        }
        if !was_over && is_over {
            self.alive = self.alive - 1;
        }
    }

    /// Plays one tick of every game, slot after slot, each with the decision
    /// taken for it. A game that has ended stays as it is, whatever its
    /// decision.
    pub fn tick(&mut self, decisions: &Vec<Direction>, rng: &mut rand::rngs::StdRng)
        requires
            old(self).wf(),
            decisions@.len() == old(self).games@.len(),
        ensures
            final(self).wf(),
            final(self).games@.len() == old(self).games@.len(),
            final(self).cell_nb == old(self).cell_nb,
            final(self).generation == old(self).generation,
            forall|i: int|
                0 <= i < old(self).games@.len() ==> {
                    &&& (#[trigger] final(self).games@[i])@ == with_food_at(
                        transition(old(self).games@[i]@, decisions@[i]),
                        final(self).games@[i].food,
                    )
                    &&& !eats(old(self).games@[i]@, decisions@[i]) ==> final(self).games@[i].food
                        == old(self).games@[i].food
                },
    {
        let size = self.games.len();
        let mut i: usize = 0;
        while i < size
            invariant
                0 <= i <= size,
                self.wf(),
                size == self.games@.len(),
                size == old(self).games@.len(),
                size == decisions@.len(),
                self.cell_nb == old(self).cell_nb,
                self.generation == old(self).generation,
                forall|j: int|
                    0 <= j < i ==> {
                        &&& (#[trigger] self.games@[j])@ == with_food_at(
                            transition(old(self).games@[j]@, decisions@[j]),
                            self.games@[j].food,
                        )
                        &&& !eats(old(self).games@[j]@, decisions@[j]) ==> self.games@[j].food == old(
                            self,
                        ).games@[j].food
                    },
                forall|j: int| i <= j < size ==> #[trigger] self.games@[j] == old(self).games@[j],
            decreases size - i,
        {
            self.step_slot(i, decisions[i], rng);
            i += 1;
        }
    }

    /// Ends the generation once every game has ended, and returns for each
    /// slot of the next generation the slot of its parent. Before that it
    /// returns `None` and changes nothing.
    ///
    /// Each parent is a slot of the old population, and one with fitness
    /// where any slot had some. Every slot then holds a game at its start,
    /// all games run, and the generation counter has gone up by one.
    pub fn next_generation(&mut self, rng: &mut rand::rngs::StdRng) -> (parents: Option<Vec<usize>>)
        requires
            old(self).wf(),
            old(self).generation < u64::MAX,
        ensures
            final(self).wf(),
            final(self).games@.len() == old(self).games@.len(),
            final(self).cell_nb == old(self).cell_nb,
            parents is None <==> old(self).alive > 0,
            parents is None ==> *final(self) == *old(self),
            parents is Some ==> {
                &&& final(self).generation == old(self).generation + 1
                &&& final(self).alive == old(self).games@.len()
                &&& forall|i: int|
                    0 <= i < final(self).games@.len() ==> at_start(
                        #[trigger] final(self).games@[i],
                        old(self).cell_nb as int,
                    )
                &&& parents->0@.len() == old(self).games@.len()
                &&& forall|i: int|
                    0 <= i < parents->0@.len() ==> (#[trigger] parents->0@[i]) < old(self).games@.len()
                &&& total(fitness_of(old(self).games@)) > 0 ==> forall|i: int|
                    0 <= i < parents->0@.len() ==> old(self).games@[(#[trigger] parents->0@[i]) as int].time_alive
                        > 0
            },
    {
        if self.alive > 0 {
            return None;
        }
        let size = self.games.len();
        let fitness = self.fitness();
        proof {
            assert forall|i: int| 0 <= i < fitness@.len() implies fitness@[i] <= TICK_CAP + 1 by {
                assert(self.games@[i].wf());
            }
            lemma_prefix_sum_capped(fitness@, size as int, (TICK_CAP + 1) as int);
        }
        let parents = select_parents(&fitness, rng);
        let games = fresh_games(size, self.cell_nb, rng);
        proof {
            lemma_running_all(games@, size as int);
        }
        self.games = games;
        self.alive = size;
        self.generation = self.generation + 1;
        Some(parents)
    }
}

} // verus!
