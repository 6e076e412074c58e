//! The fundamental structs, `Entity` and `Pos` (with tcod-sized `i32` coordinates).

use std::ops::{Add, Sub};
use vstd::prelude::*;
use vstd::std_specs::ops::{AddSpecImpl, SubSpecImpl};

pub mod entity;
pub mod pos;
pub mod tile;

verus! {

/// An x, y cartesian coordinate.
#[derive(Copy, Clone, PartialEq, Eq, Debug, Default, Structural)]
pub struct Pos {
    pub x: i32,
    pub y: i32,
}

/// Coordinate-wise sum, defined where neither coordinate overflows.
impl Add for Pos {
    type Output = Pos;

    fn add(self, other: Pos) -> (r: Pos) {
        Pos { x: self.x + other.x, y: self.y + other.y }
    }
}

impl AddSpecImpl for Pos {
    open spec fn obeys_add_spec() -> bool {
        true
    }

    open spec fn add_req(self, other: Pos) -> bool {
        i32::MIN <= self.x + other.x <= i32::MAX && i32::MIN <= self.y + other.y <= i32::MAX
    }

    open spec fn add_spec(self, other: Pos) -> Pos {
        Pos { x: (self.x + other.x) as i32, y: (self.y + other.y) as i32 }
    }
}

/// Coordinate-wise difference, defined where neither coordinate overflows.
impl Sub for Pos {
    type Output = Pos;

    fn sub(self, other: Pos) -> (r: Pos) {
        Pos { x: self.x - other.x, y: self.y - other.y }
    }
}

impl SubSpecImpl for Pos {
    open spec fn obeys_sub_spec() -> bool {
        true
    }

    open spec fn sub_req(self, other: Pos) -> bool {
        i32::MIN <= self.x - other.x <= i32::MAX && i32::MIN <= self.y - other.y <= i32::MAX
    }

    open spec fn sub_spec(self, other: Pos) -> Pos {
        Pos { x: (self.x - other.x) as i32, y: (self.y - other.y) as i32 }
    }
}

/// A position and the character that represents it on screen.
#[derive(Copy, Clone, PartialEq, Eq, Debug, Default, Structural)]
pub struct Entity {
    pub pos: Pos,
    pub ch: char,
}

impl Entity {
    /// Move the entity by `x` along the x-axis and `y` along the y-axis.
    pub fn move_cart(&mut self, x: i32, y: i32)
        requires
            i32::MIN <= old(self).pos.x + x <= i32::MAX,
            i32::MIN <= old(self).pos.y + y <= i32::MAX,
        ensures
            final(self).pos == (Pos { x: (old(self).pos.x + x) as i32, y: (old(self).pos.y + y) as i32 }),
            final(self).ch == old(self).ch,
    {
        self.pos = Pos { x: self.pos.x + x, y: self.pos.y + y };
    }

    /// Move the entity by adding `pos` to its position.
    pub fn move_pos(&mut self, pos: Pos)
        requires
            i32::MIN <= old(self).pos.x + pos.x <= i32::MAX,
            i32::MIN <= old(self).pos.y + pos.y <= i32::MAX,
        ensures
            final(self).pos == (Pos { x: (old(self).pos.x + pos.x) as i32, y: (old(self).pos.y + pos.y) as i32 }),
            final(self).ch == old(self).ch,
    {
        self.pos = self.pos + pos;
    }

    /// Set the character.
    pub fn set_char(&mut self, ch: char)
        ensures
            final(self).ch == ch,
            final(self).pos == old(self).pos,
    {
        self.ch = ch;
    }

    /// Set the position.
    pub fn set_pos(&mut self, pos: Pos)
        ensures
            final(self).pos == pos,
            final(self).ch == old(self).ch,
    {
        self.pos = pos
    }
}

} // verus!
