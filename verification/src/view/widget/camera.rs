//! The camera's picture of a grid: cells as squares of pixels, parted by
//! lines one pixel wide.

use crate::model::grid::CellGrid;
use crate::model::grid::GridView;
use vstd::prelude::*;

verus! {

/// The most pixels that the side of one cell may take.
pub const CELL_PIXEL_UPPER: usize = 128;

/// Why a picture of a grid could not be set up.
#[derive(Clone, Copy, Debug, PartialEq, Eq, Structural)]
pub enum ViewError {
    /// The scale is above [`CELL_PIXEL_UPPER`].
    InvalidScale,
}

impl ViewError {
    /// The error in words.
    pub fn message(&self) -> (text: String)
        ensures
            text@ == "Invalid Scale"@,
    {
        match self {
            ViewError::InvalidScale => "Invalid Scale".to_owned(),
        }
    }
}

/// What a [`ViewGrid`] is, mathematically.
pub struct ViewGridModel {
    /// The number of pixels that the side of one cell takes.
    pub scale: nat,
    /// The grid that is shown.
    pub grid: GridView,
}

/// A grid together with the scale at which it is shown.
pub struct ViewGrid {
    scale: usize,
    cell_grid: CellGrid,
}

impl View for ViewGrid {
    type V = ViewGridModel;

    closed spec fn view(&self) -> ViewGridModel {
        ViewGridModel { scale: self.scale as nat, grid: self.cell_grid@ }
    }
}

impl ViewGrid {
    #[verifier::type_invariant]
    spec fn scale_in_range(self) -> bool {
        self.scale <= CELL_PIXEL_UPPER
    }

    /// The picture of `cell_grid` at `scale` pixels per cell. A scale above
    /// [`CELL_PIXEL_UPPER`] is refused as [`ViewError::InvalidScale`], and
    /// no other is.
    pub fn new(scale: usize, cell_grid: CellGrid) -> (result: Result<Self, ViewError>)
        ensures
            scale <= CELL_PIXEL_UPPER ==> result is Ok && result->Ok_0@.scale == scale
                && result->Ok_0@.grid == cell_grid@,
            scale > CELL_PIXEL_UPPER ==> result == Err::<Self, ViewError>(ViewError::InvalidScale),
    {
        if scale > CELL_PIXEL_UPPER {
            return Err(ViewError::InvalidScale);
        }
        Ok(ViewGrid { scale, cell_grid })
    }

    /// The number of pixels that the side of one cell takes.
    pub fn scale(&self) -> (scale: usize)
        ensures
            scale == self@.scale,
            scale <= CELL_PIXEL_UPPER,
    {
        proof {
            use_type_invariant(self);
        }
        self.scale
    }

    /// The grid that is shown.
    pub fn cell_grid(&self) -> (grid: &CellGrid)
        ensures
            grid@ == self@.grid,
    {
        &self.cell_grid
    }

    /// Where the grid line of the given index lies along its axis, in
    /// pixels: each line is one pixel wide and `scale` pixels lie between
    /// two lines, so that line `index` lies at `index * scale + index`.
    /// `None` where that position is no `i32`.
    pub fn line_offset(&self, index: i32) -> (offset: Option<i32>)
        ensures
            offset == line_offset_at(self@.scale, index as int),
    {
        proof {
            use_type_invariant(self);
        }
        let step: i64 = self.scale as i64 + 1;
        assert(-0x8000_0000 * 129 <= index * step <= 0x8000_0000 * 129) by (nonlinear_arith)
            requires
                -0x8000_0000 <= index < 0x8000_0000,
                1 <= step <= 129,
        ;
        let position: i64 = index as i64 * step;
        assert(position == index * self@.scale + index) by (nonlinear_arith)
            requires
                position == index * step,
                step == self@.scale + 1,
        ;
        if position < i32::MIN as i64 || position > i32::MAX as i64 {
            None
        } else {
            Some(position as i32)
        }
    }
}

/// The position of grid line `index` at `scale` pixels per cell, where it is
/// an `i32`.
pub open spec fn line_offset_at(scale: nat, index: int) -> Option<i32> {
    let position = index * scale + index;
    if i32::MIN <= position <= i32::MAX {
        Some(position as i32)
    } else {
        None
    }
}

} // verus!
