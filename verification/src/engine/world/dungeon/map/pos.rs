//! A `Pos` is an xy coordinate that can do some fancy math on itself.

use std::ops::{Add, AddAssign, Neg, Sub, SubAssign};
use vstd::prelude::*;
use vstd::std_specs::ops::{AddSpecImpl, NegSpecImpl, SubSpecImpl};

verus! {

/// An x, y cartesian coordinate.
#[derive(Copy, Clone, PartialEq, Eq, Debug, Default, Structural)]
pub struct Pos {
    pub x: isize,
    pub y: isize,
}

impl Pos {
    /// Return a new `Pos`.
    pub fn new(x: isize, y: isize) -> (p: Pos)
        ensures
            p.x == x,
            p.y == y,
    {
        Pos { x, y }
    }

    /// Return a new `Pos` from usizes (each converted with `as`).
    pub fn from_usize(x: usize, y: usize) -> (p: Pos)
        ensures
            p.x == x as isize,
            p.y == y as isize,
    {
        Pos { x: x as isize, y: y as isize }
    }

    /// Return a `Pos` from a tuple.
    pub fn from_tup(pos: (isize, isize)) -> (p: Pos)
        ensures
            p.x == pos.0,
            p.y == pos.1,
    {
        Pos { x: pos.0, y: pos.1 }
    }

    /// Return a new `Pos` from a tuple of usizes.
    pub fn from_usize_tup(pos: (usize, usize)) -> (p: Pos)
        ensures
            p.x == pos.0 as isize,
            p.y == pos.1 as isize,
    {
        Pos { x: pos.0 as isize, y: pos.1 as isize }
    }

    /// Return a `Pos` at the origin (0, 0).
    pub fn origin() -> (p: Pos)
        ensures
            p.x == 0,
            p.y == 0,
    {
        Pos { x: 0, y: 0 }
    }
}

/// Coordinate-wise sum, defined where neither coordinate overflows.
impl Add<Pos> for Pos {
    type Output = Pos;

    fn add(self, other: Pos) -> (r: Pos) {
        Pos { x: self.x + other.x, y: self.y + other.y }
    }
}

impl AddSpecImpl<Pos> for Pos {
    open spec fn obeys_add_spec() -> bool {
        true
    }

    open spec fn add_req(self, other: Pos) -> bool {
        isize::MIN <= self.x + other.x <= isize::MAX && isize::MIN <= self.y + other.y <= isize::MAX
    }

    open spec fn add_spec(self, other: Pos) -> Pos {
        Pos { x: (self.x + other.x) as isize, y: (self.y + other.y) as isize }
    }
}

/// In-place coordinate-wise sum, defined where neither coordinate overflows.
impl AddAssign<Pos> for Pos {
    fn add_assign(&mut self, other: Pos)
        requires
            isize::MIN <= old(self).x + other.x <= isize::MAX,
            isize::MIN <= old(self).y + other.y <= isize::MAX,
        ensures
            *final(self) == (Pos { x: (old(self).x + other.x) as isize, y: (old(self).y + other.y) as isize }),
    {
        self.x = self.x + other.x;
        self.y = self.y + other.y;
    }
}

/// In-place coordinate-wise difference, defined where neither coordinate overflows.
impl SubAssign<Pos> for Pos {
    fn sub_assign(&mut self, other: Pos)
        requires
            isize::MIN <= old(self).x - other.x <= isize::MAX,
            isize::MIN <= old(self).y - other.y <= isize::MAX,
        ensures
            *final(self) == (Pos { x: (old(self).x - other.x) as isize, y: (old(self).y - other.y) as isize }),
    {
        self.x = self.x - other.x;
        self.y = self.y - other.y;
    }
}

/// Coordinate-wise difference, defined where neither coordinate overflows.
impl Sub<Pos> for Pos {
    type Output = Pos;

    fn sub(self, other: Pos) -> (r: Pos) {
        Pos { x: self.x - other.x, y: self.y - other.y }
    }
}

impl SubSpecImpl<Pos> for Pos {
    open spec fn obeys_sub_spec() -> bool {
        true
    }

    open spec fn sub_req(self, other: Pos) -> bool {
        isize::MIN <= self.x - other.x <= isize::MAX && isize::MIN <= self.y - other.y <= isize::MAX
    }

    open spec fn sub_spec(self, other: Pos) -> Pos {
        Pos { x: (self.x - other.x) as isize, y: (self.y - other.y) as isize }
    }
}

/// Coordinate-wise negation, defined where neither coordinate is `isize::MIN`.
impl Neg for Pos {
    type Output = Pos;

    fn neg(self) -> (r: Pos) {
        Pos { x: -self.x, y: -self.y }
    }
}

impl NegSpecImpl for Pos {
    open spec fn obeys_neg_spec() -> bool {
        true
    }

    open spec fn neg_req(self) -> bool {
        self.x != isize::MIN && self.y != isize::MIN
    }

    open spec fn neg_spec(self) -> Pos {
        Pos { x: (-self.x) as isize, y: (-self.y) as isize }
    }
}

} // verus!
