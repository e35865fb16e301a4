use vstd::prelude::*;
use crate::game::{body_after_move, eats, transition, GameView};
use crate::grid::{in_grid, neighbour, Direction, Vec2};
use crate::selection::{draw_range, falls_to, lemma_prefix_sum_monotone, lemma_prefix_sum_zero, parent_of, total};
use crate::snake::{can_advance, grown, occupies};

verus! {

/// A running game whose snake heads for a cell off the grid has ended
/// after the tick.
pub proof fn law_leaving_the_grid_ends_the_game(g: GameView, decision: Direction)
    requires
        g.body.len() >= 1,
        !g.game_over,
        !in_grid(neighbour(g.body[0], decision).0, neighbour(g.body[0], decision).1, g.cell_nb),
    ensures
        !can_advance(g.body, decision, g.cell_nb),
        body_after_move(g, decision) == g.body,
        transition(g, decision).game_over,
{
}

/// A running game whose snake, of two segments or more, heads for a cell
/// of its own body has ended after the tick.
pub proof fn law_hitting_the_body_ends_the_game(g: GameView, decision: Direction)
    requires
        g.body.len() >= 2,
        !g.game_over,
        occupies(g.body, neighbour(g.body[0], decision).0, neighbour(g.body[0], decision).1),
    ensures
        !can_advance(g.body, decision, g.cell_nb),
        body_after_move(g, decision) == g.body,
        transition(g, decision).game_over,
{
}

/// A snake without a heading does not move: it hits its own head.
pub proof fn law_no_heading_no_move(body: Seq<Vec2>, cell_nb: int)
    requires
        body.len() >= 1,
    ensures
        !can_advance(body, Direction::Undecided, cell_nb),
{
    assert(body[0].x == neighbour(body[0], Direction::Undecided).0);
}

/// Growing adds one segment, a copy of the tail, and leaves every segment
/// that was there in its place.
pub proof fn law_growth_keeps_the_body(body: Seq<Vec2>)
    requires
        body.len() >= 1,
    ensures
        grown(body).len() == body.len() + 1,
        grown(body).last() == body.last(),
        forall|i: int| 0 <= i < body.len() ==> grown(body)[i] == body[i],
{
}

/// In a tick in which the snake eats, the body is the moved body with one
/// segment more, a copy of its tail, and the score goes up by one.
pub proof fn law_eating_grows_by_one(g: GameView, decision: Direction)
    requires
        g.body.len() >= 1,
        eats(g, decision),
    ensures
        transition(g, decision).body.len() == g.body.len() + 1,
        transition(g, decision).score == g.score + 1,
        transition(g, decision).body.last() == body_after_move(g, decision).last(),
        forall|i: int|
            0 <= i < g.body.len() ==> transition(g, decision).body[i] == body_after_move(
                g,
                decision,
            )[i],
{
}

/// A tick in which the snake does not eat leaves the length and the score
/// as they were.
pub proof fn law_length_changes_only_by_eating(g: GameView, decision: Direction)
    requires
        g.body.len() >= 1,
        !eats(g, decision),
    ensures
        transition(g, decision).body.len() == g.body.len(),
        transition(g, decision).score == g.score,
{
}

/// Within a generation a body never gets shorter: a tick leaves its length
/// or adds one to it.
pub proof fn law_body_never_shrinks(g: GameView, decision: Direction)
    requires
        g.body.len() >= 1,
    ensures
        g.body.len() <= transition(g, decision).body.len() <= g.body.len() + 1,
        g.score <= transition(g, decision).score <= g.score + 1,
{
}

/// A running game that has played as many ticks as the cap allows has
/// ended after the next, whatever the move.
pub proof fn law_tick_cap_ends_the_game(g: GameView, decision: Direction)
    requires
        !g.game_over,
        g.time_alive >= crate::game::TICK_CAP,
    ensures
        transition(g, decision).game_over,
        transition(g, decision).time_alive == g.time_alive + 1,
{
}

/// Where no slot has any fitness, every slot is the parent for exactly one
/// draw, the one that names it: selection has a result and favours no
/// slot.
pub proof fn law_no_fitness_selects_evenly(fitness: Seq<u64>, draw: int, index: int)
    requires
        forall|i: int| 0 <= i < fitness.len() ==> fitness[i] == 0,
    ensures
        total(fitness) == 0,
        draw_range(fitness) == fitness.len(),
        parent_of(fitness, draw, index) <==> index == draw,
{
    lemma_prefix_sum_zero(fitness, fitness.len() as int);
}

/// A draw below the total fitness falls to one slot and no other.
pub proof fn law_draw_falls_to_one_slot(fitness: Seq<u64>, r: int, a: int, b: int)
    requires
        falls_to(fitness, r, a),
        falls_to(fitness, r, b),
    ensures
        a == b,
{
    if a < b {
        lemma_prefix_sum_monotone(fitness, a + 1, b);
    } else if b < a {
        lemma_prefix_sum_monotone(fitness, b + 1, a);
    }
}

/// A slot to which some draw falls has fitness, and a slot with fitness
/// gets as many draws as its fitness counts: those from the sum of the
/// slots before it up to, and without, that sum and its own fitness.
pub proof fn law_draws_in_proportion(fitness: Seq<u64>, r: int, index: int)
    requires
        0 <= index < fitness.len(),
    ensures
        falls_to(fitness, r, index) ==> fitness[index] > 0 && 0 <= r < total(fitness),
        falls_to(fitness, r, index) <==> 0 <= r - crate::selection::prefix_sum(fitness, index)
            < fitness[index],
{
    lemma_prefix_sum_monotone(fitness, 0, index);
    lemma_prefix_sum_monotone(fitness, index + 1, fitness.len() as int);
}

} // verus!
