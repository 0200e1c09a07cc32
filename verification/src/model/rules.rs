//! The transition rules that turn one generation into the next.

use super::coord::coord_at;
use super::coord::coords_of;
use super::coord::in_range;
use super::coord::key_of;
use super::coord::pack;
use super::coord::unpack;
use super::coord::CoordSet;
use super::grid::CellGrid;
use super::grid::GridView;
use std::collections::HashMap;
use vstd::prelude::*;
use vstd::std_specs::hash::spec_hash_map_iter;
use vstd::std_specs::iter::IteratorSpec;

verus! {

/// 1 if `(x, y)` is alive, else 0.
pub open spec fn occupied(alive: Set<(int, int)>, x: int, y: int) -> int {
    if alive.contains((x, y)) {
        1
    } else {
        0
    }
}

/// The number of alive coordinates among the eight neighbours of `c`.
pub open spec fn neighbour_count(alive: Set<(int, int)>, c: (int, int)) -> int {
    occupied(alive, c.0 - 1, c.1 - 1) + occupied(alive, c.0 - 1, c.1) + occupied(
        alive,
        c.0 - 1,
        c.1 + 1,
    ) + occupied(alive, c.0, c.1 - 1) + occupied(alive, c.0, c.1 + 1) + occupied(
        alive,
        c.0 + 1,
        c.1 - 1,
    ) + occupied(alive, c.0 + 1, c.1) + occupied(alive, c.0 + 1, c.1 + 1)
}

/// The number of alive coordinates in the 3x3 block centred on `c`: the
/// neighbours of `c`, and `c` itself.
pub open spec fn block_count(alive: Set<(int, int)>, c: (int, int)) -> int {
    occupied(alive, c.0, c.1) + neighbour_count(alive, c)
}

/// Whether `a` and `c` lie in one 3x3 block: they are equal or neighbours.
pub open spec fn in_block(a: (int, int), c: (int, int)) -> bool {
    &&& -1 <= c.0 - a.0 <= 1
    &&& -1 <= c.1 - a.1 <= 1
}

/// The standard rule for a valid coordinate whose block holds `count` alive
/// coordinates: with three it is alive in the next generation, with two it
/// stays as it is, and with any other count it is dead.
pub open spec fn standard_rule(count: int, alive: bool) -> bool {
    count == 3 || (count == 2 && alive)
}

/// Whether `c` is alive in the generation after `grid` under the standard
/// rule: it is valid, and the rule keeps it or gives it birth.
pub open spec fn standard_alive_next(grid: GridView, c: (int, int)) -> bool {
    &&& grid.is_valid(c)
    &&& standard_rule(block_count(grid.alive, c), grid.alive.contains(c))
}

/// The generation that follows `grid` under the standard rule.
pub open spec fn standard_successor(grid: GridView) -> GridView {
    GridView { alive: Set::new(|c: (int, int)| standard_alive_next(grid, c)), bound: grid.bound }
}

/// A rule set: a way to compute the next generation of a grid.
pub trait RulesInterface {
    /// The generation that the rule set gives after `grid`.
    spec fn successor(grid: GridView) -> GridView;

    /// Computes the generation after `grid`. The grid itself is left as it is.
    fn next_gen(grid: &CellGrid) -> (next: CellGrid)
        ensures
            next@ == Self::successor(grid@),
            next@.bound == grid@.bound,
    ;
}

/// The standard rule set.
pub struct SimpleRules;

/// The count that `counts` holds for `c`, which is 0 where it holds none.
spec fn count_at(counts: Map<u64, usize>, c: (int, int)) -> int {
    let k = key_of(c.0, c.1) as u64;
    if counts.contains_key(k) {
        counts[k] as int
    } else {
        0
    }
}

/// 1 if `hit` holds, else 0.
spec fn one_if(hit: bool) -> int {
    if hit {
        1
    } else {
        0
    }
}

/// Adds one to the count of `(x, y)`.
fn bump(counts: &mut HashMap<u64, usize>, x: i32, y: i32)
    requires
        count_at(old(counts)@, (x as int, y as int)) < usize::MAX,
    ensures
        forall|c: (int, int)|
            in_range(c.0) && in_range(c.1) ==> #[trigger] count_at(final(counts)@, c) == count_at(
                old(counts)@,
                c,
            ) + one_if(c == (x as int, y as int)),
        final(counts)@.dom().len() <= old(counts)@.dom().len() + 1,
{
    let k = pack(x, y);
    let slot = counts.entry(k).or_insert(0);
    *slot = *slot + 1;
}

/// Adds one to the count of every coordinate in the 3x3 block centred on
/// `cell`. A coordinate of the block that no `i32` pair can name is passed
/// over: it lies outside every window.
fn count_block(counts: &mut HashMap<u64, usize>, cell: (i32, i32))
    requires
        forall|c: (int, int)|
            in_range(c.0) && in_range(c.1) && in_block((cell.0 as int, cell.1 as int), c)
                ==> #[trigger] count_at(old(counts)@, c) < usize::MAX,
    ensures
        forall|c: (int, int)|
            in_range(c.0) && in_range(c.1) ==> #[trigger] count_at(final(counts)@, c) == count_at(
                old(counts)@,
                c,
            ) + one_if(in_block((cell.0 as int, cell.1 as int), c)),
        final(counts)@.dom().len() <= old(counts)@.dom().len() + 9,
{
    let ghost a = (cell.0 as int, cell.1 as int);
    for dx in -1i32..2
        invariant
            a == (cell.0 as int, cell.1 as int),
            counts@.dom().len() <= old(counts)@.dom().len() + 3 * (dx + 1),
            forall|c: (int, int)|
                in_range(c.0) && in_range(c.1) && in_block(a, c) ==> #[trigger] count_at(
                    old(counts)@,
                    c,
                ) < usize::MAX,
            forall|c: (int, int)|
                in_range(c.0) && in_range(c.1) ==> #[trigger] count_at(counts@, c) == count_at(
                    old(counts)@,
                    c,
                ) + one_if(in_block(a, c) && c.0 - a.0 < dx),
    {
        for dy in -1i32..2
            invariant
                -1 <= dx < 2,
                a == (cell.0 as int, cell.1 as int),
                counts@.dom().len() <= old(counts)@.dom().len() + 3 * (dx + 1) + (dy + 1),
                forall|c: (int, int)|
                    in_range(c.0) && in_range(c.1) && in_block(a, c) ==> #[trigger] count_at(
                        old(counts)@,
                        c,
                    ) < usize::MAX,
                forall|c: (int, int)|
                    in_range(c.0) && in_range(c.1) ==> #[trigger] count_at(counts@, c)
                        == count_at(old(counts)@, c) + one_if(
                        in_block(a, c) && (c.0 - a.0 < dx || (c.0 - a.0 == dx && c.1 - a.1 < dy)),
                    ),
        {
            match (cell.0.checked_add(dx), cell.1.checked_add(dy)) {
                (Some(x), Some(y)) => {
                    bump(counts, x, y);
                },
                _ => {},
            }
        }
    }
}

/// One more alive coordinate adds one to the count of each block that it lies
/// in, and nothing to the others.
proof fn lemma_block_count_insert(alive: Set<(int, int)>, a: (int, int), c: (int, int))
    requires
        !alive.contains(a),
    ensures
        block_count(alive.insert(a), c) == block_count(alive, c) + one_if(in_block(a, c)),
{
}

/// The coordinates of the first `n + 1` entries are those of the first `n`
/// and the entry at `n`, which is new where no entry occurs twice.
proof fn lemma_coords_of_take(cells: Seq<(i32, i32)>, n: int)
    requires
        0 <= n < cells.len(),
        cells.no_duplicates(),
    ensures
        coords_of(cells.take(n + 1)) == coords_of(cells.take(n)).insert(coord_at(cells, n)),
        !coords_of(cells.take(n)).contains(coord_at(cells, n)),
{
    let shorter = cells.take(n);
    let longer = cells.take(n + 1);
    assert forall|c: (int, int)| coords_of(longer).contains(c) implies coords_of(shorter).insert(
        coord_at(cells, n),
    ).contains(c) by {
        let i = choose|i: int| 0 <= i < longer.len() && coord_at(longer, i) == c;
        if i < n {
            assert(coord_at(shorter, i) == c);
        }
    }
    assert forall|c: (int, int)|
        coords_of(shorter).insert(coord_at(cells, n)).contains(c) implies coords_of(
        longer,
    ).contains(c) by {
        if c == coord_at(cells, n) {
            assert(coord_at(longer, n) == c);
        } else {
            let i = choose|i: int| 0 <= i < shorter.len() && coord_at(shorter, i) == c;
            assert(coord_at(longer, i) == c);
        }
    }
}

/// Counts, for every coordinate, the alive coordinates of `grid` in its
/// block. The counts take at most nine entries for each alive coordinate.
fn count_blocks(grid: &CellGrid) -> (counts: HashMap<u64, usize>)
    ensures
        forall|c: (int, int)|
            in_range(c.0) && in_range(c.1) ==> #[trigger] count_at(counts@, c) == block_count(
                grid@.alive,
                c,
            ),
        counts@.dom().len() <= 9 * grid@.alive.len(),
{
    let cells = grid.alive_cells().to_vec();
    let mut counts: HashMap<u64, usize> = HashMap::new();
    for i in 0..cells.len()
        invariant
            cells@.no_duplicates(),
            counts@.dom().len() <= 9 * i,
            forall|c: (int, int)|
                in_range(c.0) && in_range(c.1) ==> #[trigger] count_at(counts@, c) == block_count(
                    coords_of(cells@.take(i as int)),
                    c,
                ),
    {
        proof {
            lemma_coords_of_take(cells@, i as int);
        }
        count_block(&mut counts, cells[i]);
    }
    proof {
        assert(cells@.take(cells@.len() as int) == cells@);
    }
    counts
}

/// Decides whether `addr`, whose block holds `count` alive coordinates, is
/// alive in the generation after `grid`.
fn lives_on(grid: &CellGrid, addr: &(i32, i32), count: usize) -> (keep: bool)
    ensures
        keep == (grid@.is_valid((addr.0 as int, addr.1 as int)) && standard_rule(
            count as int,
            grid@.alive.contains((addr.0 as int, addr.1 as int)),
        )),
{
    if !grid.is_valid(addr) {
        return false;
    }
    match count {
        2 => grid.is_alive(addr),
        3 => true,
        _ => false,
    }
}

impl RulesInterface for SimpleRules {
    open spec fn successor(grid: GridView) -> GridView {
        standard_successor(grid)
    }

    /// Computes the generation after `grid` under the standard rule.
    ///
    /// Every alive coordinate adds one to the count of each coordinate of its
    /// 3x3 block, itself included. A counted coordinate is alive in the result
    /// when it is valid and its count is three, or two with the coordinate
    /// alive in `grid`. The result has the bound of `grid`.
    fn next_gen(grid: &CellGrid) -> (next: CellGrid) {
        let counts = count_blocks(grid);
        let mut next_alive = CoordSet::new();
        let ghost entries = spec_hash_map_iter(&counts).remaining();
        for entry in it: counts.iter()
            invariant
                it.seq() == entries,
                forall|c: (int, int)|
                    in_range(c.0) && in_range(c.1) ==> #[trigger] count_at(counts@, c)
                        == block_count(grid@.alive, c),
                forall|c: (int, int)| #[trigger]
                    next_alive@.contains(c) <==> in_range(c.0) && in_range(c.1)
                        && standard_alive_next(grid@, c) && exists|j: int|
                        0 <= j < it.index() && *(#[trigger] entries[j]).0 == key_of(c.0, c.1),
        {
            let (key, count) = entry;
            let addr = unpack(*key);
            assert(count_at(counts@, (addr.0 as int, addr.1 as int)) == *count);
            if lives_on(grid, &addr, *count) {
                next_alive.insert(addr);
            }
        }
        let bound = grid.upper_scale();
        let next = CellGrid::from_alive_cells(next_alive, bound);
        proof {
            assert forall|c: (int, int)|
                next@.alive.contains(c) == standard_alive_next(grid@, c) by {
                if standard_alive_next(grid@, c) {
                    // A count of two or three has an entry, which the loop met.
                    assert(count_at(counts@, c) == block_count(grid@.alive, c));
                }
            }
            assert(next@.alive =~= standard_successor(grid@).alive);
        }
        next
    }
}

} // verus!
