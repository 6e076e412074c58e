//! An x, y coordinate with a constructor and an origin.

use std::ops::{Add, Sub};
use vstd::prelude::*;
use vstd::std_specs::ops::{AddSpecImpl, SubSpecImpl};

verus! {

/// An x, y cartesian coordinate.
#[derive(Copy, Clone, PartialEq, Eq, Debug, Default, Structural)]
pub struct Pos {
    pub x: i32,
    pub y: i32,
}

impl Pos {
    /// Return a new `Pos`.
    pub fn new(x: i32, y: i32) -> (p: Pos)
        ensures
            p == (Pos { x, y }),
    {
        Pos { x: x, y: y }
    }

    /// Return a `Pos` at the origin (0, 0).
    pub fn origin() -> (p: Pos)
        ensures
            p == (Pos { x: 0, y: 0 }),
    {
        Pos { x: 0, y: 0 }
    }
}

/// Coordinate-wise sum, defined where neither coordinate overflows.
impl Add for Pos {
    type Output = Pos;

    fn add(self, other: Pos) -> (r: Pos) {
        Pos::new(self.x + other.x, self.y + other.y)
    }
}

impl AddSpecImpl for Pos {
    open spec fn obeys_add_spec() -> bool {
        true
    }

    open spec fn add_req(self, other: Pos) -> bool {
        i32::MIN <= self.x + other.x <= i32::MAX && i32::MIN <= self.y + other.y <= i32::MAX
    }

    open spec fn add_spec(self, other: Pos) -> Pos {
        Pos { x: (self.x + other.x) as i32, y: (self.y + other.y) as i32 }
    }
}

/// Coordinate-wise difference, defined where neither coordinate overflows.
impl Sub for Pos {
    type Output = Pos;

    fn sub(self, other: Pos) -> (r: Pos) {
        Pos::new(self.x - other.x, self.y - other.y)
    }
}

impl SubSpecImpl for Pos {
    open spec fn obeys_sub_spec() -> bool {
        true
    }

    open spec fn sub_req(self, other: Pos) -> bool {
        i32::MIN <= self.x - other.x <= i32::MAX && i32::MIN <= self.y - other.y <= i32::MAX
    }

    open spec fn sub_spec(self, other: Pos) -> Pos {
        Pos { x: (self.x - other.x) as i32, y: (self.y - other.y) as i32 }
    }
}

} // verus!
