//! Shapes that rooms and corridors are built from.

pub mod rect;
pub use self::rect::Rect;
pub use crate::engine::world::dungeon::builder::construct::corr::Corr;
