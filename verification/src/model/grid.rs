//! The grid: the set of alive coordinates and the bound of the universe.

use super::cell::Cell;
use super::cell::CellState;
use super::coord::CoordSet;
use vstd::prelude::*;

verus! {

/// What a grid is, mathematically: the alive coordinates and the bound.
///
/// The bound `b` stands for the open window `(-b, b)` on both axes. Nothing
/// forces the alive coordinates to lie inside the window; [`Self::confined`]
/// says when they do.
pub struct GridView {
    pub alive: Set<(int, int)>,
    pub bound: int,
}

impl GridView {
    /// Whether `coord` lies strictly inside the window on both axes.
    pub open spec fn is_valid(self, coord: (int, int)) -> bool {
        &&& -self.bound < coord.0 < self.bound
        &&& -self.bound < coord.1 < self.bound
    }

    /// Whether every alive coordinate lies inside the window.
    pub open spec fn confined(self) -> bool {
        forall|c: (int, int)| #[trigger] self.alive.contains(c) ==> self.is_valid(c)
    }
}

/// One generation: a sparse set of alive coordinates in a bounded universe.
pub struct CellGrid {
    alive_cells: CoordSet,
    upper_scale: i32,
}

impl View for CellGrid {
    type V = GridView;

    closed spec fn view(&self) -> GridView {
        GridView { alive: self.alive_cells@, bound: self.upper_scale as int }
    }
}

impl CellGrid {
    /// The bound of the universe.
    pub fn upper_scale(&self) -> (bound: i32)
        ensures
            bound == self@.bound,
    {
        self.upper_scale
    }

    /// An empty grid with the given bound.
    ///
    /// Any bound is accepted. With a bound of zero or less no coordinate is
    /// valid, so nothing can ever live in such a grid's successors.
    pub fn new(upper_scale: i32) -> (grid: Self)
        ensures
            grid@.bound == upper_scale,
            grid@.alive == Set::<(int, int)>::empty(),
    {
        CellGrid { alive_cells: CoordSet::new(), upper_scale }
    }

    /// Whether `coord` lies strictly inside the window `(-bound, bound)` on
    /// both axes.
    pub fn is_valid(&self, coord: &(i32, i32)) -> (valid: bool)
        ensures
            valid == self@.is_valid((coord.0 as int, coord.1 as int)),
            valid == (-self@.bound < coord.0 < self@.bound && -self@.bound < coord.1
                < self@.bound),
    {
        let bound: i64 = self.upper_scale as i64;
        let x: i64 = coord.0 as i64;
        let y: i64 = coord.1 as i64;
        -bound < x && x < bound && -bound < y && y < bound
    }

    /// Whether `addr` is alive. The window plays no part in the answer.
    pub fn is_alive(&self, addr: &(i32, i32)) -> (alive: bool)
        ensures
            alive == self@.alive.contains((addr.0 as int, addr.1 as int)),
    {
        self.alive_cells.contains(addr)
    }

    /// The alive coordinates.
    pub fn alive_cells(&self) -> (cells: &CoordSet)
        ensures
            cells@ == self@.alive,
    {
        &self.alive_cells
    }

    /// The grid with exactly the given alive coordinates and bound. The
    /// coordinates are taken as they are, whether inside the window or not.
    pub fn from_alive_cells(alive_cells: CoordSet, upper_scale: i32) -> (grid: Self)
        ensures
            grid@.alive == alive_cells@,
            grid@.bound == upper_scale,
    {
        CellGrid { alive_cells, upper_scale }
    }

    /// The alive coordinates of a grid are finitely many pairs of `i32`.
    pub proof fn lemma_alive(&self)
        ensures
            self@.alive.finite(),
            forall|c: (int, int)| #[trigger]
                self@.alive.contains(c) ==> i32::MIN <= c.0 <= i32::MAX && i32::MIN <= c.1
                    <= i32::MAX,
    {
        self.alive_cells.lemma_members();
    }
}

/// The bound of the grid that an empty matrix gives.
pub const DEFAULT_UPPER_SCALE: i32 = 1024;

/// Whether row `i`, column `j` of `matrix` exists and holds an alive cell.
pub open spec fn matrix_alive_at(matrix: Seq<Vec<Cell>>, i: int, j: int) -> bool {
    &&& 0 <= i < matrix.len()
    &&& 0 <= j < matrix[i]@.len()
    &&& matrix[i]@[j].state == CellState::Alive
}

/// The coordinate that stands for row `i`, column `j`: each index cut down to
/// an `i32`, which changes no index up to `i32::MAX`.
pub open spec fn matrix_coord(i: int, j: int) -> (int, int) {
    ((i as i32) as int, (j as i32) as int)
}

/// The grid that a dense matrix stands for.
///
/// An empty matrix gives an empty grid with the default bound. Otherwise the
/// alive coordinates are those of the alive cells, and the bound is the
/// larger of the number of rows and the length of the first row, cut down to
/// an `i32`. Rows need not have one length; only the first is measured.
pub open spec fn matrix_view(matrix: Seq<Vec<Cell>>) -> GridView {
    if matrix.len() == 0 {
        GridView { alive: Set::empty(), bound: DEFAULT_UPPER_SCALE as int }
    } else {
        let rows = matrix.len();
        let columns = matrix[0]@.len();
        GridView {
            alive: Set::new(
                |c: (int, int)|
                    exists|i: int, j: int| #[trigger]
                        matrix_alive_at(matrix, i, j) && c == matrix_coord(i, j),
            ),
            bound: (if rows >= columns {
                rows as i32
            } else {
                columns as i32
            }) as int,
        }
    }
}

/// Where `i32` can number the rows and the columns of a matrix, its grid
/// holds `(i, j)` exactly where row `i`, column `j` holds an alive cell, and
/// the bound is the larger of the number of rows and the length of the first
/// row.
pub proof fn lemma_matrix_view(matrix: Seq<Vec<Cell>>, i: int, j: int)
    requires
        0 < matrix.len() <= i32::MAX,
        forall|r: int| 0 <= r < matrix.len() ==> (#[trigger] matrix[r])@.len() <= i32::MAX,
    ensures
        matrix_view(matrix).alive.contains((i, j)) <==> matrix_alive_at(matrix, i, j),
        matrix_view(matrix).bound == if matrix.len() >= matrix[0]@.len() {
            matrix.len()
        } else {
            matrix[0]@.len()
        },
{
    if matrix_view(matrix).alive.contains((i, j)) {
        let (r, c) = choose|r: int, c: int| #[trigger]
            matrix_alive_at(matrix, r, c) && (i, j) == matrix_coord(r, c);
        assert(matrix[r]@.len() <= i32::MAX);
    }
    if matrix_alive_at(matrix, i, j) {
        assert(matrix[i]@.len() <= i32::MAX);
        assert((i, j) == matrix_coord(i, j));
    }
    assert(matrix[0]@.len() <= i32::MAX);
}

impl vstd::std_specs::convert::FromSpecImpl<Vec<Vec<Cell>>> for CellGrid {
    /// Two grids with the same content need not be the same value, so the
    /// conversion is specified by the view of its result, not by the result.
    open spec fn obeys_from_spec() -> bool {
        false
    }

    open spec fn from_spec(matrix: Vec<Vec<Cell>>) -> Self {
        arbitrary()
    }
}

impl From<Vec<Vec<Cell>>> for CellGrid {
    /// Reads a grid off a dense matrix of cells: see [`matrix_view`].
    fn from(grid: Vec<Vec<Cell>>) -> (result: Self)
        ensures
            result@ == matrix_view(grid@),
    {
        if grid.len() == 0 {
            return CellGrid::new(DEFAULT_UPPER_SCALE);
        }
        let mut alive_cells = CoordSet::new();
        for x in 0..grid.len()
            invariant
                forall|c: (int, int)| #[trigger]
                    alive_cells@.contains(c) <==> exists|i: int, j: int|
                        i < x && #[trigger] matrix_alive_at(grid@, i, j) && c == matrix_coord(i, j),
        {
            let row = &grid[x];
            for y in 0..row.len()
                invariant
                    0 <= x < grid@.len(),
                    row@ == grid@[x as int]@,
                    forall|c: (int, int)| #[trigger]
                        alive_cells@.contains(c) <==> exists|i: int, j: int|
                            (i < x || (i == x && j < y)) && #[trigger] matrix_alive_at(grid@, i, j)
                                && c == matrix_coord(i, j),
            {
                if row[y].is_alive() {
                    let coord = (
                        #[verifier::truncate]
                        (x as i32),
                        #[verifier::truncate]
                        (y as i32),
                    );
                    alive_cells.insert(coord);
                    assert(matrix_alive_at(grid@, x as int, y as int));
                }
            }
        }
        let rows = grid.len();
        let columns = grid[0].len();
        let upper_scale = if rows >= columns {
            #[verifier::truncate]
            (rows as i32)
        } else {
            #[verifier::truncate]
            (columns as i32)
        };
        let result = CellGrid { alive_cells, upper_scale };
        proof {
            assert(result@.alive =~= matrix_view(grid@).alive);
        }
        result
    }
}

} // verus!
