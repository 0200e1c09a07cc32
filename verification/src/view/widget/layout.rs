//! Where the children of a layout lie inside its frame.

use vstd::prelude::*;

verus! {

/// How a layout parts its frame among its children.
#[derive(Clone, Copy, Debug, PartialEq, Eq, Structural)]
pub enum Direction {
    /// The children are bands that span the frame's width, one below the
    /// other.
    Horizontal,
    /// The children are columns that span the frame's height, one beside
    /// the other.
    Vertical,
}

/// A rectangle of pixels: its upper left corner and its size.
#[derive(Clone, Copy, Debug, PartialEq, Eq, Structural)]
pub struct Frame {
    pub x: i32,
    pub y: i32,
    pub width: u32,
    pub height: u32,
}

/// What an extent adds to the position of the next child: the extent as an
/// `i32`, which is the extent itself up to `i32::MAX`.
pub open spec fn advance(extent: u32) -> int {
    (extent as i32) as int
}

/// Where child `k` begins along the axis, when the first begins at `start`
/// and each child begins where the one before it ends.
pub open spec fn child_start(start: int, extents: Seq<u32>, k: int) -> int
    decreases k,
{
    if k <= 0 {
        start
    } else {
        child_start(start, extents, k - 1) + advance(extents[k - 1])
    }
}

/// Where the first child begins: at the top of the frame for bands, at its
/// left for columns.
pub open spec fn axis_start(direction: Direction, frame: Frame) -> int {
    match direction {
        Direction::Horizontal => frame.y as int,
        Direction::Vertical => frame.x as int,
    }
}

/// Whether every child, and the end of the last, begins at an `i32`.
pub open spec fn children_fit(direction: Direction, frame: Frame, extents: Seq<u32>) -> bool {
    forall|k: int|
        0 <= k <= extents.len() ==> i32::MIN <= #[trigger] child_start(
            axis_start(direction, frame),
            extents,
            k,
        ) <= i32::MAX
}

/// The frame of child `k`: it begins at its start along the axis and takes
/// its extent there, and spans the whole frame across the axis.
pub open spec fn child_frame(
    direction: Direction,
    frame: Frame,
    extents: Seq<u32>,
    k: int,
) -> Frame {
    let begin = child_start(axis_start(direction, frame), extents, k) as i32;
    match direction {
        Direction::Horizontal => Frame {
            x: frame.x,
            y: begin,
            width: frame.width,
            height: extents[k],
        },
        Direction::Vertical => Frame {
            x: begin,
            y: frame.y,
            width: extents[k],
            height: frame.height,
        },
    }
}

/// Lays the children of a layout out inside `frame`, one after the other
/// in the given direction, child `k` taking `extents[k]` pixels along the
/// axis. `None` where a child would begin, or the last one end, beyond what
/// an `i32` holds.
pub fn child_frames(direction: Direction, frame: Frame, extents: &Vec<u32>) -> (frames: Option<
    Vec<Frame>,
>)
    ensures
        frames is Some <==> children_fit(direction, frame, extents@),
        frames matches Some(placed) ==> placed@.len() == extents@.len() && forall|k: int|
            0 <= k < extents@.len() ==> #[trigger] placed@[k] == child_frame(
                direction,
                frame,
                extents@,
                k,
            ),
{
    let is_horizontal = direction == Direction::Horizontal;
    let mut position: i32 = if is_horizontal {
        frame.y
    } else {
        frame.x
    };
    let ghost start = axis_start(direction, frame);
    let mut placed: Vec<Frame> = Vec::new();
    for i in 0..extents.len()
        invariant
            start == axis_start(direction, frame),
            is_horizontal == (direction == Direction::Horizontal),
            position == child_start(start, extents@, i as int),
            placed@.len() == i,
            forall|k: int|
                0 <= k <= i ==> i32::MIN <= #[trigger] child_start(start, extents@, k) <= i32::MAX,
            forall|k: int|
                0 <= k < i ==> #[trigger] placed@[k] == child_frame(direction, frame, extents@, k),
    {
        let extent = extents[i];
        let child = if is_horizontal {
            Frame { x: frame.x, y: position, width: frame.width, height: extent }
        } else {
            Frame { x: position, y: frame.y, width: extent, height: frame.height }
        };
        placed.push(child);
        let step =
            #[verifier::truncate]
            (extent as i32);
        match position.checked_add(step) {
            Some(next) => {
                position = next;
            },
            None => {
                assert(!(i32::MIN <= child_start(start, extents@, i + 1) <= i32::MAX));
                return None;
            },
        }
    }
    Some(placed)
}

} // verus!
