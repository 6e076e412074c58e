//! A floor map: its size, its tiles and its entities.

use crate::object::tile::Tile;
use crate::object::Entity;
use vstd::prelude::*;

verus! {

/// A floor map: its size, its tiles and its entities.
pub struct TileMap {
    pub length: usize,
    pub height: usize,
    pub tile_vec: Vec<Tile>,
    pub entity_vec: Vec<Entity>,
}

impl TileMap {
    /// Return a new `TileMap` holding exactly the given size, tiles and entities.
    pub fn new(length: usize, height: usize, tile_vec: Vec<Tile>, entity_vec: Vec<Entity>) -> (m: TileMap)
        ensures
            m.length == length,
            m.height == height,
            m.tile_vec == tile_vec,
            m.entity_vec == entity_vec,
    {
        TileMap { length, height, tile_vec, entity_vec }
    }
}

} // verus!
