//! Something that can be rendered: a glyph, an id and two colors.

pub use crate::engine::renderer::RGB;
use vstd::prelude::*;

verus! {

/// Getters and setters shared by everything that can be drawn.
pub trait Renderable {
    fn get_bg(&self) -> RGB;

    fn get_fg(&self) -> RGB;

    fn get_glyph(&self) -> char;

    fn get_id(&self) -> &'static str;

    fn set_bg(&mut self, bg: RGB);

    fn set_fg(&mut self, fg: RGB);

    fn set_glyph(&mut self, glyph: char);

    fn set_id(&mut self, name: &'static str);
}

} // verus!
