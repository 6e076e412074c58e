//! Corridors: a start and an end location.

use crate::engine::world::dungeon::map::Pos;
use vstd::prelude::*;

verus! {

/// A corridor runs from `start` to `end`; how it gets there is up to its builder.
#[derive(Copy, Clone, PartialEq, Eq, Debug, Default, Structural)]
pub struct Corr {
    pub start: Pos,
    pub end: Pos,
}

impl Corr {
    /// Return a new `Corr`.
    pub fn new(start: Pos, end: Pos) -> (c: Corr)
        ensures
            c.start == start,
            c.end == end,
    {
        Corr { start: start, end: end }
    }
}

} // verus!
