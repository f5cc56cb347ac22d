//! The two axes of a table, and how a value along an axis takes its place
//! in a point, a size or a rectangle.

use vstd::prelude::*;
use crate::index::VisIdx;
use crate::layout::{Extent, Pixel};
use crate::remap::Remap;

verus! {

/// The height that a column header has where none is configured.
pub const DEFAULT_COL_HEADER_HEIGHT: Extent = 25;

/// The width that a row header has where none is configured.
pub const DEFAULT_ROW_HEADER_WIDTH: Extent = 100;

/// A position in the plane.
#[derive(Debug, Clone, Copy, PartialEq, Eq, Structural)]
pub struct Point {
    pub x: Pixel,
    pub y: Pixel,
}

/// The extent of something in the plane.
#[derive(Debug, Clone, Copy, PartialEq, Eq, Structural)]
pub struct Size {
    pub width: Pixel,
    pub height: Pixel,
}

/// A rectangle with sides along the axes, from its near corner `(x0, y0)`
/// to its far corner `(x1, y1)`.
#[derive(Debug, Clone, Copy, PartialEq, Eq, Structural)]
pub struct Rect {
    pub x0: Pixel,
    pub y0: Pixel,
    pub x1: Pixel,
    pub y1: Pixel,
}

/// The pointer shape that invites a resize.
#[derive(Debug, Clone, Copy, PartialEq, Eq, Structural)]
pub enum ResizeCursor {
    /// A border between two rows: it moves up and down.
    UpDown,
    /// A border between two columns: it moves left and right.
    LeftRight,
}

/// The axis that is measured. Rows follow each other downwards, along `y`;
/// columns to the right, along `x`.
#[derive(Debug, Clone, Copy, PartialEq, Eq, Structural)]
pub enum TableAxis {
    Rows,
    Columns,
}

impl TableAxis {
    /// The other axis.
    pub fn cross_axis(&self) -> (r: TableAxis)
        ensures
            r == (match *self {
                TableAxis::Rows => TableAxis::Columns,
                TableAxis::Columns => TableAxis::Rows,
            }),
    {
        match self {
            TableAxis::Rows => TableAxis::Columns,
            TableAxis::Columns => TableAxis::Rows,
        }
    }

    /// The coordinate of `point` along this axis.
    pub fn main_pixel_from_point(&self, point: &Point) -> (r: Pixel)
        ensures
            r == (match *self {
                TableAxis::Rows => point.y,
                TableAxis::Columns => point.x,
            }),
    {
        match self {
            TableAxis::Rows => point.y,
            TableAxis::Columns => point.x,
        }
    }

    /// The near and the far bound of `rect` along this axis.
    pub fn pixels_from_rect(&self, rect: &Rect) -> (r: (Pixel, Pixel))
        ensures
            r == (match *self {
                TableAxis::Rows => (rect.y0, rect.y1),
                TableAxis::Columns => (rect.x0, rect.x1),
            }),
    {
        match self {
            TableAxis::Rows => (rect.y0, rect.y1),
            TableAxis::Columns => (rect.x0, rect.x1),
        }
    }

    /// The extent across this axis of the header of its items: the width of
    /// a row header, the height of a column header.
    pub fn default_header_cross(&self) -> (r: Extent)
        ensures
            r == (match *self {
                TableAxis::Rows => DEFAULT_ROW_HEADER_WIDTH,
                TableAxis::Columns => DEFAULT_COL_HEADER_HEIGHT,
            }),
    {
        match self {
            TableAxis::Rows => DEFAULT_ROW_HEADER_WIDTH,
            TableAxis::Columns => DEFAULT_COL_HEADER_HEIGHT,
        }
    }

    /// The pair `(x, y)` made of a value along this axis and one across it.
    pub fn coords(&self, main: Pixel, cross: Pixel) -> (r: (Pixel, Pixel))
        ensures
            r == (match *self {
                TableAxis::Rows => (cross, main),
                TableAxis::Columns => (main, cross),
            }),
    {
        match self {
            TableAxis::Rows => (cross, main),
            TableAxis::Columns => (main, cross),
        }
    }

    /// The size that is `main` long along this axis and `cross` across it.
    pub fn size(&self, main: Pixel, cross: Pixel) -> (r: Size)
        ensures
            r == (match *self {
                TableAxis::Rows => Size { width: cross, height: main },
                TableAxis::Columns => Size { width: main, height: cross },
            }),
    {
        let (width, height) = self.coords(main, cross);
        Size { width, height }
    }

    /// The point that lies at `main` along this axis and at `cross` across it.
    pub fn cell_origin(&self, main: Pixel, cross: Pixel) -> (r: Point)
        ensures
            r == (match *self {
                TableAxis::Rows => Point { x: cross, y: main },
                TableAxis::Columns => Point { x: main, y: cross },
            }),
    {
        let (x, y) = self.coords(main, cross);
        Point { x, y }
    }

    /// The pointer shape for dragging a border between two items of this axis.
    pub fn resize_cursor(&self) -> (r: ResizeCursor)
        ensures
            r == (match *self {
                TableAxis::Rows => ResizeCursor::UpDown,
                TableAxis::Columns => ResizeCursor::LeftRight,
            }),
    {
        match self {
            TableAxis::Rows => ResizeCursor::UpDown,
            TableAxis::Columns => ResizeCursor::LeftRight,
        }
    }
}

/// A change that was made to the measure of an axis, for those who follow it.
#[derive(Debug)]
pub enum AxisMeasureAdjustment {
    /// The item in a visible slot of the axis now has this extent.
    LengthChanged(TableAxis, VisIdx, Extent),
    /// The items of the axis are now shown in this order.
    RemapChanged(TableAxis, Remap),
}

impl AxisMeasureAdjustment {
    /// The axis that was changed.
    pub open spec fn axis(&self) -> TableAxis {
        match self {
            AxisMeasureAdjustment::LengthChanged(axis, _, _) => *axis,
            AxisMeasureAdjustment::RemapChanged(axis, _) => *axis,
        }
    }
}

impl Clone for AxisMeasureAdjustment {
    fn clone(&self) -> (r: Self)
        ensures
            r.axis() == self.axis(),
            match (*self, r) {
                (
                    AxisMeasureAdjustment::LengthChanged(_, idx, length),
                    AxisMeasureAdjustment::LengthChanged(_, r_idx, r_length),
                ) => r_idx == idx && r_length == length,
                (
                    AxisMeasureAdjustment::RemapChanged(_, remap),
                    AxisMeasureAdjustment::RemapChanged(_, r_remap),
                ) => r_remap.mapping() == remap.mapping(),
                _ => false,
            },
    {
        match self {
            AxisMeasureAdjustment::LengthChanged(axis, idx, length) => {
                AxisMeasureAdjustment::LengthChanged(*axis, *idx, *length)
            },
            AxisMeasureAdjustment::RemapChanged(axis, remap) => {
                AxisMeasureAdjustment::RemapChanged(*axis, remap.clone())
            },
        }
    }
}

} // verus!
