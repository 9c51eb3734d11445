//! Rectangles, points and monitors in virtual-screen coordinates.

use vstd::prelude::*;

use crate::num::{clamp_i32, half, half_towards_zero, max_i32, max_int, min_i32, min_int, sat_add, sat_sub};

verus! {

/// The handle by which the desktop names a top-level window.
#[derive(Debug, Clone, Copy, PartialEq, Eq, Hash, PartialOrd, Ord, Structural)]
pub struct WindowHandle(pub u64);

/// The identifier of a monitor.
#[derive(Debug, Clone, Copy, PartialEq, Eq, Hash, PartialOrd, Ord, Structural)]
pub struct MonitorId(pub u64);

/// A pixel position.
#[derive(Debug, Clone, Copy, PartialEq, Eq, Structural)]
pub struct Point {
    pub x: i32,
    pub y: i32,
}

/// A rectangle; `right` and `bottom` lie just outside.
#[derive(Debug, Clone, Copy, PartialEq, Eq, Structural)]
pub struct Rect {
    pub left: i32,
    pub top: i32,
    pub right: i32,
    pub bottom: i32,
}

/// A monitor with its full bounds and the part left free by taskbars.
#[derive(Debug, Clone, Copy, PartialEq, Eq, Structural)]
pub struct MonitorInfo {
    pub id: MonitorId,
    pub is_primary: bool,
    pub rect: Rect,
    pub work_area: Rect,
}

/// A window and the rectangle it is to take.
#[derive(Debug, Clone, Copy, PartialEq, Eq, Structural)]
pub struct TileAssignment {
    pub window: WindowHandle,
    pub rect: Rect,
}

impl Rect {
    /// The rectangle at `(left, top)` with the given size, its far edges held within `i32`.
    pub open spec fn sized(left: int, top: int, width: int, height: int) -> Rect {
        Rect {
            left: left as i32,
            top: top as i32,
            right: clamp_i32(left + width) as i32,
            bottom: clamp_i32(top + height) as i32,
        }
    }

    /// How wide the rectangle is, held within `i32`.
    pub open spec fn spec_width(self) -> int {
        clamp_i32(self.right - self.left)
    }

    /// How high the rectangle is, held within `i32`.
    pub open spec fn spec_height(self) -> int {
        clamp_i32(self.bottom - self.top)
    }

    /// Whether the rectangle covers no pixel.
    pub open spec fn covers_nothing(self) -> bool {
        self.right <= self.left || self.bottom <= self.top
    }

    /// Whether the rectangle covers the pixel `(x, y)`.
    pub open spec fn covers(self, x: int, y: int) -> bool {
        self.left <= x < self.right && self.top <= y < self.bottom
    }

    /// Whether every pixel of this rectangle's extent lies within `outer`.
    pub open spec fn within(self, outer: Rect) -> bool {
        &&& outer.left <= self.left
        &&& self.right <= outer.right
        &&& outer.top <= self.top
        &&& self.bottom <= outer.bottom
    }

    /// Whether the two rectangles share no pixel.
    pub open spec fn apart_from(self, other: Rect) -> bool {
        forall|x: int, y: int| !(#[trigger] self.covers(x, y) && other.covers(x, y))
    }

    /// The middle of the rectangle, rounded towards its near edges.
    pub open spec fn middle(self) -> Point {
        Point {
            x: clamp_i32(self.left + half_towards_zero(self.spec_width())) as i32,
            y: clamp_i32(self.top + half_towards_zero(self.spec_height())) as i32,
        }
    }

    /// How far an edge can move in along an extent of `length` when `amount` is asked for: never
    /// so far that fewer than one pixel would be left.
    pub open spec fn inset_step(length: int, amount: int) -> int {
        min_int(max_int(amount, 0), max_int(length - 1, 0) / 2)
    }

    /// The rectangle with each edge moved in.
    pub open spec fn shrunk(self, amount: int) -> Rect {
        let horizontal = Rect::inset_step(self.spec_width(), amount);
        let vertical = Rect::inset_step(self.spec_height(), amount);
        Rect {
            left: (self.left + horizontal) as i32,
            top: (self.top + vertical) as i32,
            right: (self.right - horizontal) as i32,
            bottom: (self.bottom - vertical) as i32,
        }
    }

    /// The rectangle at `(left, top)` that is `width` wide and `height` high.
    pub fn from_size(left: i32, top: i32, width: i32, height: i32) -> (r: Rect)
        ensures
            r == Rect::sized(left as int, top as int, width as int, height as int),
    {
        Rect { left, top, right: sat_add(left, width), bottom: sat_add(top, height) }
    }

    /// How wide the rectangle is.
    pub fn width(self) -> (r: i32)
        ensures
            r == self.spec_width(),
    {
        sat_sub(self.right, self.left)
    }

    /// How high the rectangle is.
    pub fn height(self) -> (r: i32)
        ensures
            r == self.spec_height(),
    {
        sat_sub(self.bottom, self.top)
    }

    /// Whether the rectangle covers no pixel.
    pub fn is_empty(self) -> (r: bool)
        ensures
            r == self.covers_nothing(),
    {
        self.width() <= 0 || self.height() <= 0
    }

    /// The middle of the rectangle.
    pub fn center(self) -> (r: Point)
        ensures
            r == self.middle(),
    {
        Point {
            x: sat_add(self.left, half(self.width())),
            y: sat_add(self.top, half(self.height())),
        }
    }

    /// Whether the rectangle covers the point.
    pub fn contains(self, point: Point) -> (r: bool)
        ensures
            r == self.covers(point.x as int, point.y as int),
    {
        point.x >= self.left && point.x < self.right && point.y >= self.top && point.y < self.bottom
    }

    /// Moves each edge in by `amount`, as far as at least one pixel is left.
    pub fn inset(self, amount: i32) -> (r: Rect)
        ensures
            r == self.shrunk(amount as int),
    {
        let amount: i32 = max_i32(amount, 0);
        let horizontal: i32 = min_i32(amount, max_i32(sat_sub(self.width(), 1), 0) / 2);
        let vertical: i32 = min_i32(amount, max_i32(sat_sub(self.height(), 1), 0) / 2);
        Rect {
            left: sat_add(self.left, horizontal),
            top: sat_add(self.top, vertical),
            right: sat_sub(self.right, horizontal),
            bottom: sat_sub(self.bottom, vertical),
        }
    }
}

/// A rectangle that covers a pixel covers one still after any inset, and stays where it was.
pub proof fn inset_keeps_a_pixel(rect: Rect, amount: int)
    requires
        !rect.covers_nothing(),
    ensures
        !rect.shrunk(amount).covers_nothing(),
        rect.shrunk(amount).within(rect),
{
}

} // verus!
