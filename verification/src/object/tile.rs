//! A tile: an entity that may block movement.

pub use super::entity::{Color, Entity};
pub use super::pos::Pos;
use vstd::prelude::*;

verus! {

/// An environmental entity, which may block movement.
#[derive(Copy, Clone, PartialEq, Eq, Debug, Default, Structural)]
pub struct Tile {
    pub entity: Entity,
    pub blocks: bool,
}

impl Tile {
    /// Return a new `Tile`.
    pub fn new(pos: Pos, glyph: char, fg: Color, bg: Color, blocks: bool) -> (t: Tile)
        ensures
            t == (Tile { entity: Entity { pos, glyph, fg, bg }, blocks }),
    {
        Tile { entity: Entity::new(pos, glyph, fg, bg), blocks: blocks }
    }
}

} // verus!
