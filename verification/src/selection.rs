use vstd::prelude::*;
use crate::random::draw_below;

verus! {

/// The sum of the first `count` fitness values.
pub open spec fn prefix_sum(fitness: Seq<u64>, count: int) -> int
    decreases count,
{
    if count <= 0 {
        0
    } else {
        prefix_sum(fitness, count - 1) + fitness[count - 1]
    }
}

/// The sum of all fitness values.
pub open spec fn total(fitness: Seq<u64>) -> int {
    prefix_sum(fitness, fitness.len() as int)
}

/// Whether the draw `r` falls to slot `index`: the slots before it sum to
/// at most `r`, and together with it to more. Of the draws below the total
/// a slot gets as many as its fitness counts.
pub open spec fn falls_to(fitness: Seq<u64>, r: int, index: int) -> bool {
    &&& 0 <= index < fitness.len()
    &&& prefix_sum(fitness, index) <= r < prefix_sum(fitness, index + 1)
}

/// The number of values that the draw for one parent ranges over: the
/// total fitness, or the number of slots where no slot has any fitness.
pub open spec fn draw_range(fitness: Seq<u64>) -> int {
    if total(fitness) == 0 {
        fitness.len() as int
    } else {
        total(fitness)
    }
}

/// Whether `draw` makes slot `index` the parent: in proportion to fitness
/// where there is any, and else the slot that the draw names.
pub open spec fn parent_of(fitness: Seq<u64>, draw: int, index: int) -> bool {
    if total(fitness) == 0 {
        index == draw
    } else {
        falls_to(fitness, draw, index)
    }
}

/// Prefix sums do not go down as more slots are counted.
pub proof fn lemma_prefix_sum_monotone(fitness: Seq<u64>, a: int, b: int)
    requires
        0 <= a <= b,
    ensures
        0 <= prefix_sum(fitness, a) <= prefix_sum(fitness, b),
    decreases b,
{
    if a < b {
        lemma_prefix_sum_monotone(fitness, a, b - 1);
    } else if a > 0 {
        lemma_prefix_sum_monotone(fitness, a - 1, a - 1);
    }
}

/// Where every value is at most `cap`, the first `count` of them sum to at
/// most `count` times `cap`.
pub proof fn lemma_prefix_sum_capped(fitness: Seq<u64>, count: int, cap: int)
    requires
        0 <= count <= fitness.len(),
        forall|i: int| 0 <= i < fitness.len() ==> fitness[i] <= cap,
    ensures
        prefix_sum(fitness, count) <= count * cap,
    decreases count,
{
    if count > 0 {
        lemma_prefix_sum_capped(fitness, count - 1, cap);
        assert((count - 1) * cap + cap == count * cap) by (nonlinear_arith);
    } else {
        assert(count * cap == 0) by (nonlinear_arith)
            requires
                count == 0,
        ;
    }
}

/// Where every value is zero, so is every prefix sum.
pub proof fn lemma_prefix_sum_zero(fitness: Seq<u64>, count: int)
    requires
        0 <= count <= fitness.len(),
        forall|i: int| 0 <= i < fitness.len() ==> fitness[i] == 0,
    ensures
        prefix_sum(fitness, count) == 0,
    decreases count,
{
    if count > 0 {
        lemma_prefix_sum_zero(fitness, count - 1);
    }
}

/// Adds up the fitness values.
pub fn total_fitness(fitness: &Vec<u64>) -> (sum: u64)
    requires
        total(fitness@) <= u64::MAX,
    ensures
        sum == total(fitness@),
{
    let mut sum: u64 = 0;
    let mut i: usize = 0;
    while i < fitness.len()
        invariant
            0 <= i <= fitness.len(),
            sum == prefix_sum(fitness@, i as int),
            total(fitness@) <= u64::MAX,
        decreases fitness.len() - i,
    {
        proof {
            lemma_prefix_sum_monotone(fitness@, i + 1, fitness@.len() as int);
        }
        sum = sum + fitness[i];
        i += 1;
    }
    sum
}

/// Walks the slots in order, taking each slot's fitness off the draw, and
/// returns the slot at which the draw is used up.
pub fn select_parent(fitness: &Vec<u64>, r: u64) -> (index: usize)
    requires
        r < total(fitness@),
    ensures
        falls_to(fitness@, r as int, index as int),
{
    let mut rest: u64 = r;
    let mut i: usize = 0;
    loop
        invariant
            0 <= i < fitness.len(),
            rest + prefix_sum(fitness@, i as int) == r,
            r < total(fitness@),
        decreases fitness.len() - i,
    {
        if rest < fitness[i] {
            return i;
        }
        rest = rest - fitness[i];
        i += 1;
        proof {
            if i == fitness.len() {
                assert(prefix_sum(fitness@, i as int) == total(fitness@));
            }
        }
    }
}

/// The number of values that the draw for one parent ranges over.
pub fn draw_bound(fitness: &Vec<u64>) -> (bound: u64)
    requires
        total(fitness@) <= u64::MAX,
    ensures
        bound == draw_range(fitness@),
{
    let sum = total_fitness(fitness);
    if sum == 0 {
        fitness.len() as u64
    } else {
        sum
    }
}

/// The parent that `draw` stands for. With some fitness in the population
/// the draw is walked down the slots; with none, every slot is as good as
/// any other and the draw itself names the slot.
pub fn parent_for_draw(fitness: &Vec<u64>, draw: u64) -> (index: usize)
    requires
        total(fitness@) <= u64::MAX,
        draw < draw_range(fitness@),
    ensures
        index < fitness@.len(),
        parent_of(fitness@, draw as int, index as int),
{
    let sum = total_fitness(fitness);
    if sum == 0 {
        assert(draw < fitness.len());
        draw as usize
    } else {
        select_parent(fitness, draw)
    }
}

/// Chooses one parent with a draw from `rng`. The choice is a slot of the
/// population, and one with fitness where any slot has some.
pub fn choose_parent(fitness: &Vec<u64>, rng: &mut rand::rngs::StdRng) -> (index: usize)
    requires
        fitness@.len() > 0,
        total(fitness@) <= u64::MAX,
    ensures
        index < fitness@.len(),
        total(fitness@) > 0 ==> fitness@[index as int] > 0,
{
    let bound = draw_bound(fitness);
    let draw = draw_below(rng, bound);
    parent_for_draw(fitness, draw)
}

/// Chooses a parent for every slot of the next generation.
pub fn select_parents(fitness: &Vec<u64>, rng: &mut rand::rngs::StdRng) -> (parents: Vec<usize>)
    requires
        total(fitness@) <= u64::MAX,
    ensures
        parents@.len() == fitness@.len(),
        forall|i: int| 0 <= i < parents@.len() ==> (#[trigger] parents@[i]) < fitness@.len(),
        total(fitness@) > 0 ==> forall|i: int|
            0 <= i < parents@.len() ==> fitness@[(#[trigger] parents@[i]) as int] > 0,
{
    let mut parents: Vec<usize> = Vec::new();
    let mut i: usize = 0;
    while i < fitness.len()
        invariant
            0 <= i <= fitness.len(),
            total(fitness@) <= u64::MAX,
            parents@.len() == i,
            forall|k: int| 0 <= k < parents@.len() ==> (#[trigger] parents@[k]) < fitness@.len(),
            total(fitness@) > 0 ==> forall|k: int|
                0 <= k < parents@.len() ==> fitness@[(#[trigger] parents@[k]) as int] > 0,
        decreases fitness.len() - i,
    {
        let parent = choose_parent(fitness, rng);
        parents.push(parent);
        i += 1;
    }
    parents
}

} // verus!
