//! Screen rectangles: by their four edges, and by origin and size.
use vstd::prelude::*;

use crate::fits_i32;

verus! {

/// A rectangle given by its four edges, as the windowing environment reports
/// one: `left` and `top` inclusive, `right` and `bottom` exclusive.
#[derive(Clone, Copy, Debug, PartialEq, Eq, Structural)]
pub struct Bounds {
    pub left: i32,
    pub top: i32,
    pub right: i32,
    pub bottom: i32,
}

/// A point on the screen.
#[derive(Clone, Copy, Debug, PartialEq, Eq, Structural)]
pub struct Point {
    pub x: i32,
    pub y: i32,
}

/// A rectangle given by its origin and its size.
#[derive(Clone, Copy, Debug, PartialEq, Eq, Structural)]
pub struct Rect {
    pub left: i32,
    pub top: i32,
    pub width: i32,
    pub height: i32,
}

impl Bounds {
    pub open spec fn width(self) -> int {
        self.right - self.left
    }

    pub open spec fn height(self) -> int {
        self.bottom - self.top
    }

    /// Width times height (negative for an inverted rectangle).
    pub open spec fn area(self) -> int {
        self.width() * self.height()
    }

    /// Whether the point lies inside: edges left and top included, right and
    /// bottom excluded.
    pub open spec fn holds(self, p: Point) -> bool {
        self.left <= p.x < self.right && self.top <= p.y < self.bottom
    }

    /// A rectangle from its four edges.
    pub fn new(left: i32, top: i32, right: i32, bottom: i32) -> (r: Bounds)
        ensures
            r == (Bounds { left, top, right, bottom }),
    {
        Bounds { left, top, right, bottom }
    }

    /// Whether the point lies inside this rectangle.
    pub fn contains(&self, p: Point) -> (r: bool)
        ensures
            r == self.holds(p),
    {
        self.left <= p.x && p.x < self.right && self.top <= p.y && p.y < self.bottom
    }
}

/// Whether `pt` lies in `lprc`.
pub fn point_in_rect(lprc: Bounds, pt: Point) -> (r: bool)
    ensures
        r == lprc.holds(pt),
{
    lprc.contains(pt)
}

/// The origin-and-size form of a rectangle given by its edges.
pub open spec fn rect_of(b: Bounds) -> Rect {
    Rect {
        left: b.left,
        top: b.top,
        width: b.width() as i32,
        height: b.height() as i32,
    }
}

/// The rectangle `r` moved by the top-left offsets of `m` and shrunk by the
/// size of `m`.
pub open spec fn rect_minus(r: Rect, m: Bounds) -> Rect {
    Rect {
        left: (r.left - m.left) as i32,
        top: (r.top - m.top) as i32,
        width: (r.width - m.width()) as i32,
        height: (r.height - m.height()) as i32,
    }
}

/// Whether `rect_minus(r, m)` can be held in machine integers.
pub open spec fn rect_minus_fits(r: Rect, m: Bounds) -> bool {
    &&& fits_i32(r.left - m.left)
    &&& fits_i32(r.top - m.top)
    &&& fits_i32(r.width - m.width())
    &&& fits_i32(r.height - m.height())
}

impl Rect {
    pub fn new(left: i32, top: i32, width: i32, height: i32) -> (r: Self)
        ensures
            r == (Rect { left, top, width, height }),
    {
        Rect { left, top, width, height }
    }

    /// The origin-and-size form of `r`; its width and height must be
    /// representable.
    pub fn from_bounds(r: Bounds) -> (res: Rect)
        requires
            fits_i32(r.width()),
            fits_i32(r.height()),
        ensures
            res == rect_of(r),
            res.width == r.width(),
            res.height == r.height(),
    {
        Rect { left: r.left, top: r.top, width: r.right - r.left, height: r.bottom - r.top }
    }

    /// Moves the origin back by the top-left offsets of `b` and shrinks the size
    /// by the size of `b`.
    pub fn sub(self, b: Bounds) -> (res: Rect)
        requires
            rect_minus_fits(self, b),
        ensures
            res == rect_minus(self, b),
    {
        let bw: i64 = b.right as i64 - b.left as i64;
        let bh: i64 = b.bottom as i64 - b.top as i64;
        Rect {
            left: self.left - b.left,
            top: self.top - b.top,
            width: (self.width as i64 - bw) as i32,
            height: (self.height as i64 - bh) as i32,
        }
    }
}

} // verus!
