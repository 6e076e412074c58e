//! Dungeon generation: map objects, builders and filters.

pub mod automata;
pub mod builder;
pub mod filter;
pub mod map;
