//! An entity: a position, a glyph and two colors.

pub use super::pos::Pos;
use vstd::prelude::*;

verus! {

/// A color as its red, green and blue channels (what a console color holds).
#[derive(Copy, Clone, PartialEq, Eq, Debug, Default, Structural)]
pub struct Color {
    pub r: u8,
    pub g: u8,
    pub b: u8,
}

/// Something drawn on screen: a position, a glyph and foreground/background colors.
#[derive(Copy, Clone, PartialEq, Eq, Debug, Default, Structural)]
pub struct Entity {
    pub pos: Pos,
    pub glyph: char,
    pub fg: Color,
    pub bg: Color,
}

impl Entity {
    /// Move the entity by `x` along the x-axis and `y` along the y-axis.
    pub fn move_cart(&mut self, x: i32, y: i32)
        requires
            i32::MIN <= old(self).pos.x + x <= i32::MAX,
            i32::MIN <= old(self).pos.y + y <= i32::MAX,
        ensures
            *final(self) == (Entity {
                pos: Pos { x: (old(self).pos.x + x) as i32, y: (old(self).pos.y + y) as i32 },
                ..*old(self)
            }),
    {
        self.pos = Pos::new(self.pos.x + x, self.pos.y + y);
    }

    /// Move the entity by adding `pos` to its position.
    pub fn move_pos(&mut self, pos: Pos)
        requires
            i32::MIN <= old(self).pos.x + pos.x <= i32::MAX,
            i32::MIN <= old(self).pos.y + pos.y <= i32::MAX,
        ensures
            *final(self) == (Entity { pos: Pos { x: (old(self).pos.x + pos.x) as i32, y: (old(self).pos.y + pos.y) as i32 }, ..*old(self) }),
    {
        self.pos = self.pos + pos;
    }

    /// Return a new `Entity`.
    pub fn new(pos: Pos, glyph: char, fg: Color, bg: Color) -> (e: Entity)
        ensures
            e == (Entity { pos, glyph, fg, bg }),
    {
        Entity { pos: pos, glyph: glyph, fg: fg, bg: bg }
    }

    /// Set the glyph.
    pub fn set_char(&mut self, glyph: char)
        ensures
            *final(self) == (Entity { glyph, ..*old(self) }),
    {
        self.glyph = glyph;
    }

    /// Set the position.
    pub fn set_pos(&mut self, pos: Pos)
        ensures
            *final(self) == (Entity { pos, ..*old(self) }),
    {
        self.pos = pos
    }
}

} // verus!
