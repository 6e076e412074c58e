//! Dungeon helpers: simplex noise tables and the cellular automaton interface.

pub mod cellular_automata;
pub mod simplex;
