//! Rooms and corridors with `i32` coordinates.

pub mod corr;
pub mod rect;
