//! Placing one rectangle on another by a named anchor.
use crate::error::RasterResult;
use vstd::prelude::*;

verus! {

/// The nine anchors that an item can be placed at on a canvas.
#[derive(Debug, Clone, Copy, PartialEq, Eq, Structural)]
pub enum PositionMode {
    TopLeft,
    TopCenter,
    TopRight,
    CenterLeft,
    Center,
    CenterRight,
    BottomLeft,
    BottomCenter,
    BottomRight,
}

/// Half of `a`, rounded towards zero.
pub open spec fn half(a: int) -> int {
    if a >= 0 {
        a / 2
    } else {
        -((-a) / 2)
    }
}

/// Where an item of extent `item` starts on one axis of a canvas of extent
/// `canvas`: at the start (`anchor == 0`), centered (`1`) or at the end.
pub open spec fn place_axis(anchor: int, canvas: int, item: int, offset: int) -> int {
    if anchor == 0 {
        offset
    } else if anchor == 1 {
        half(canvas) - half(item) + offset
    } else {
        canvas - item + offset
    }
}

impl PositionMode {
    /// The horizontal anchor: 0 for left, 1 for center, 2 for right.
    pub open spec fn column(self) -> int {
        match self {
            PositionMode::TopLeft | PositionMode::CenterLeft | PositionMode::BottomLeft => 0,
            PositionMode::TopCenter | PositionMode::Center | PositionMode::BottomCenter => 1,
            PositionMode::TopRight | PositionMode::CenterRight | PositionMode::BottomRight => 2,
        }
    }

    /// The vertical anchor: 0 for top, 1 for center, 2 for bottom.
    pub open spec fn row(self) -> int {
        match self {
            PositionMode::TopLeft | PositionMode::TopCenter | PositionMode::TopRight => 0,
            PositionMode::CenterLeft | PositionMode::Center | PositionMode::CenterRight => 1,
            PositionMode::BottomLeft | PositionMode::BottomCenter | PositionMode::BottomRight => 2,
        }
    }

    /// The top left corner of an item placed on a canvas at this anchor and
    /// then moved by the offsets.
    pub open spec fn place(
        self,
        canvas_width: int,
        canvas_height: int,
        item_width: int,
        item_height: int,
        offset_x: int,
        offset_y: int,
    ) -> (int, int) {
        (
            place_axis(self.column(), canvas_width, item_width, offset_x),
            place_axis(self.row(), canvas_height, item_height, offset_y),
        )
    }

    /// The placement of an item on a canvas, computed without overflow.
    pub(crate) fn locate(
        self,
        canvas_width: i32,
        canvas_height: i32,
        item_width: i32,
        item_height: i32,
        offset_x: i32,
        offset_y: i32,
    ) -> (p: (i64, i64))
        ensures
            (p.0 as int, p.1 as int) == self.place(
                canvas_width as int,
                canvas_height as int,
                item_width as int,
                item_height as int,
                offset_x as int,
                offset_y as int,
            ),
    {
        let (column, row): (u8, u8) = match self {
            PositionMode::TopLeft => (0, 0),
            PositionMode::TopCenter => (1, 0),
            PositionMode::TopRight => (2, 0),
            PositionMode::CenterLeft => (0, 1),
            PositionMode::Center => (1, 1),
            PositionMode::CenterRight => (2, 1),
            PositionMode::BottomLeft => (0, 2),
            PositionMode::BottomCenter => (1, 2),
            PositionMode::BottomRight => (2, 2),
        };
        (
            locate_axis(column, canvas_width, item_width, offset_x),
            locate_axis(row, canvas_height, item_height, offset_y),
        )
    }
}

fn halve(a: i32) -> (r: i64)
    ensures
        r == half(a as int),
{
    if a >= 0 {
        (a / 2) as i64
    } else {
        -((-(a as i64)) / 2)
    }
}

fn locate_axis(anchor: u8, canvas: i32, item: i32, offset: i32) -> (r: i64)
    ensures
        r == place_axis(anchor as int, canvas as int, item as int, offset as int),
{
    if anchor == 0 {
        offset as i64
    } else if anchor == 1 {
        halve(canvas) - halve(item) + offset as i64
    } else {
        canvas as i64 - item as i64 + offset as i64
    }
}

/// An anchor together with the offsets that move the item from it.
pub struct Position {
    position: PositionMode,
    offset_x: i32,
    offset_y: i32,
}

impl Position {
    /// The anchor.
    pub closed spec fn mode(self) -> PositionMode {
        self.position
    }

    /// The offsets, horizontal and vertical.
    pub closed spec fn offsets(self) -> (int, int) {
        (self.offset_x as int, self.offset_y as int)
    }

    pub fn new(position: PositionMode, offset_x: i32, offset_y: i32) -> (p: Position)
        ensures
            p.mode() == position,
            p.offsets() == (offset_x as int, offset_y as int),
    {
        Position { position, offset_x, offset_y }
    }

    /// The top left corner of an image placed on a canvas.
    pub open spec fn target(self, canvas_width: int, canvas_height: int, image_width: int, image_height: int) -> (int, int) {
        self.mode().place(
            canvas_width,
            canvas_height,
            image_width,
            image_height,
            self.offsets().0,
            self.offsets().1,
        )
    }

    /// Get the x and y position of the top left corner of an image placed on
    /// a canvas. The coordinates may lie outside of the canvas; they have to
    /// fit the result type.
    pub fn get_x_y(&self, canvas_width: i32, canvas_height: i32, image_width: i32, image_height: i32) -> (r:
        RasterResult<(i32, i32)>)
        requires
            i32::MIN <= self.target(
                canvas_width as int,
                canvas_height as int,
                image_width as int,
                image_height as int,
            ).0 <= i32::MAX,
            i32::MIN <= self.target(
                canvas_width as int,
                canvas_height as int,
                image_width as int,
                image_height as int,
            ).1 <= i32::MAX,
        ensures
            r matches Ok(p) && (p.0 as int, p.1 as int) == self.target(
                canvas_width as int,
                canvas_height as int,
                image_width as int,
                image_height as int,
            ),
    {
        let p = self.position.locate(
            canvas_width,
            canvas_height,
            image_width,
            image_height,
            self.offset_x,
            self.offset_y,
        );
        Ok((p.0 as i32, p.1 as i32))
    }
}

} // verus!
