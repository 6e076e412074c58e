//! Edgequest: a roguelike's world model, dungeon generation and camera logic.

pub mod dungeon;
pub mod engine;
pub mod game;
pub mod map;
pub mod object;
mod random;
