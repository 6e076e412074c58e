//! Builders that construct parts of a dungeon.

pub mod construct;
pub mod structure;
pub use self::structure::Structure;
