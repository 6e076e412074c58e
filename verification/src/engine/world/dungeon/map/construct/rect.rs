//! Rectangles that represent rooms.

use crate::engine::world::dungeon::map::Pos;
use vstd::prelude::*;

verus! {

/// A room: the x, y location of its corner, its height (y-axis) and width (x-axis).
///
/// Whether it lies inside a map is up to whoever places it.
#[derive(Copy, Clone, PartialEq, Eq, Debug, Default, Structural)]
pub struct Rect {
    pub x: isize,
    pub y: isize,
    pub h: isize,
    pub w: isize,
}

/// Integer division that rounds toward zero, as Rust's `/` does.
pub open spec fn div_trunc(a: int, b: int) -> int {
    if a >= 0 { a / b } else { -((-a) / b) }
}

/// The center of a rectangle.
pub open spec fn rect_center(r: Rect) -> Pos {
    Pos { x: (div_trunc(r.w as int, 2) + r.x) as isize, y: (div_trunc(r.h as int, 2) + r.y) as isize }
}

/// `(x, y)` lies in the rectangle.
pub open spec fn in_rect(r: Rect, x: int, y: int) -> bool {
    r.x <= x < r.x + r.w && r.y <= y < r.y + r.h
}

impl Rect {
    /// The center of the `Rect` (half the width and height, rounded toward zero, past the corner).
    pub fn center(&self) -> (p: Pos)
        requires
            isize::MIN <= div_trunc(self.w as int, 2) + self.x <= isize::MAX,
            isize::MIN <= div_trunc(self.h as int, 2) + self.y <= isize::MAX,
        ensures
            p == rect_center(*self),
    {
        Pos::from_tup(((self.w / 2) + self.x, (self.h / 2) + self.y))
    }

    /// Return a new `Rect`.
    pub fn new(x: isize, y: isize, h: isize, w: isize) -> (r: Rect)
        ensures
            r == (Rect { x, y, h, w }),
    {
        Rect { x, y, h, w }
    }
}

} // verus!
