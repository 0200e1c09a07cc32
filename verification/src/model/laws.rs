//! What holds of the standard rule, whatever the grid.

use super::grid::GridView;
use super::rules::block_count;
use super::rules::in_block;
use super::rules::neighbour_count;
use super::rules::RulesInterface;
use super::rules::SimpleRules;
use vstd::prelude::*;

verus! {

/// The grid after `steps` generations of the standard rule.
pub open spec fn standard_generation(grid: GridView, steps: nat) -> GridView
    decreases steps,
{
    if steps == 0 {
        grid
    } else {
        SimpleRules::successor(standard_generation(grid, (steps - 1) as nat))
    }
}

/// With a bound of zero or less no coordinate is valid.
pub proof fn lemma_no_window(grid: GridView, c: (int, int))
    requires
        grid.bound <= 0,
    ensures
        !grid.is_valid(c),
{
}

/// With a bound of zero or less nothing is alive in the next generation,
/// whatever was alive before.
pub proof fn lemma_no_window_no_life(grid: GridView)
    requires
        grid.bound <= 0,
    ensures
        SimpleRules::successor(grid).alive == Set::<(int, int)>::empty(),
{
}

/// With a positive bound `b` the valid coordinates are those from `-(b - 1)`
/// to `b - 1` on both axes: `b - 1` is inside the window, `b` and `-b` are not.
pub proof fn lemma_window_edges(grid: GridView, c: (int, int))
    requires
        grid.bound > 0,
    ensures
        grid.is_valid(c) <==> (-(grid.bound - 1) <= c.0 <= grid.bound - 1 && -(grid.bound - 1)
            <= c.1 <= grid.bound - 1),
        grid.is_valid((grid.bound - 1, 0)),
        !grid.is_valid((grid.bound, 0)),
        !grid.is_valid((-grid.bound, 0)),
{
}

/// A block holds between zero and nine alive coordinates, and at most eight
/// of them are neighbours of its centre.
pub proof fn lemma_count_range(alive: Set<(int, int)>, c: (int, int))
    ensures
        0 <= neighbour_count(alive, c) <= 8,
        0 <= block_count(alive, c) <= 9,
        block_count(alive, c) == neighbour_count(alive, c) + if alive.contains(c) {
            1int
        } else {
            0int
        },
{
}

/// A dead coordinate is alive in the next generation exactly when it is
/// valid and has three alive neighbours.
pub proof fn lemma_birth(grid: GridView, c: (int, int))
    requires
        !grid.alive.contains(c),
    ensures
        SimpleRules::successor(grid).alive.contains(c) <==> grid.is_valid(c) && neighbour_count(
            grid.alive,
            c,
        ) == 3,
{
}

/// An alive coordinate stays alive exactly when it is valid and has one or
/// two alive neighbours: it counts itself, so that with three neighbours its
/// block holds four and it dies.
pub proof fn lemma_survival(grid: GridView, c: (int, int))
    requires
        grid.alive.contains(c),
    ensures
        SimpleRules::successor(grid).alive.contains(c) <==> grid.is_valid(c) && (neighbour_count(
            grid.alive,
            c,
        ) == 1 || neighbour_count(grid.alive, c) == 2),
{
}

/// The next generation keeps the bound, and all that is alive in it lies
/// inside the window, whether or not that held of `grid`.
pub proof fn lemma_successor_confined(grid: GridView)
    ensures
        SimpleRules::successor(grid).bound == grid.bound,
        SimpleRules::successor(grid).confined(),
{
}

/// Whatever is alive in the next generation has an alive coordinate of
/// `grid` in its block.
pub proof fn lemma_successor_local(grid: GridView, c: (int, int))
    requires
        SimpleRules::successor(grid).alive.contains(c),
    ensures
        exists|a: (int, int)| grid.alive.contains(a) && in_block(a, c),
{
    if grid.alive.contains((c.0 - 1, c.1 - 1)) {
        assert(in_block((c.0 - 1, c.1 - 1), c));
    } else if grid.alive.contains((c.0 - 1, c.1)) {
        assert(in_block((c.0 - 1, c.1), c));
    } else if grid.alive.contains((c.0 - 1, c.1 + 1)) {
        assert(in_block((c.0 - 1, c.1 + 1), c));
    } else if grid.alive.contains((c.0, c.1 - 1)) {
        assert(in_block((c.0, c.1 - 1), c));
    } else if grid.alive.contains((c.0, c.1)) {
        assert(in_block((c.0, c.1), c));
    } else if grid.alive.contains((c.0, c.1 + 1)) {
        assert(in_block((c.0, c.1 + 1), c));
    } else if grid.alive.contains((c.0 + 1, c.1 - 1)) {
        assert(in_block((c.0 + 1, c.1 - 1), c));
    } else if grid.alive.contains((c.0 + 1, c.1)) {
        assert(in_block((c.0 + 1, c.1), c));
    } else {
        assert(grid.alive.contains((c.0 + 1, c.1 + 1)));
        assert(in_block((c.0 + 1, c.1 + 1), c));
    }
}

/// The generation after an empty grid is empty.
pub proof fn lemma_empty_is_stable(grid: GridView)
    requires
        grid.alive == Set::<(int, int)>::empty(),
    ensures
        SimpleRules::successor(grid).alive == Set::<(int, int)>::empty(),
        SimpleRules::successor(grid).bound == grid.bound,
{
}

/// An empty grid is empty after any number of generations.
pub proof fn lemma_empty_stays_empty(grid: GridView, steps: nat)
    requires
        grid.alive == Set::<(int, int)>::empty(),
    ensures
        standard_generation(grid, steps).alive == Set::<(int, int)>::empty(),
        standard_generation(grid, steps).bound == grid.bound,
    decreases steps,
{
    if steps > 0 {
        lemma_empty_stays_empty(grid, (steps - 1) as nat);
    }
}

} // verus!
