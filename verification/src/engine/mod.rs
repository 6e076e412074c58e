//! The game engine: world model and renderer logic.

pub mod renderer;
pub mod world;
