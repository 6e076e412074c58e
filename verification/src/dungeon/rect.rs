//! Rectangles that represent rooms.

use crate::engine::world::dungeon::map::construct::rect::div_trunc;
use crate::object::pos::Pos;
use vstd::prelude::*;

verus! {

/// A room: its corner, its length (y-axis) and its width (x-axis).
#[derive(Copy, Clone, PartialEq, Eq, Debug, Default, Structural)]
pub struct Rect {
    pub x: i32,
    pub y: i32,
    pub l: i32,
    pub w: i32,
}

impl Rect {
    /// The center of the `Rect`: half the width and length, rounded toward zero, past the corner.
    pub fn center(&self) -> (p: Pos)
        requires
            i32::MIN <= div_trunc(self.w as int, 2) + self.x <= i32::MAX,
            i32::MIN <= div_trunc(self.l as int, 2) + self.y <= i32::MAX,
        ensures
            p == (Pos {
                x: (div_trunc(self.w as int, 2) + self.x) as i32,
                y: (div_trunc(self.l as int, 2) + self.y) as i32,
            }),
    {
        Pos::new((self.w / 2) + self.x, (self.l / 2) + self.y)
    }

    /// Return a new `Rect`.
    pub fn new(x: i32, y: i32, l: i32, w: i32) -> (r: Rect)
        ensures
            r == (Rect { x, y, l, w }),
    {
        Rect { x: x, y: y, l: l, w: w }
    }
}

} // verus!
