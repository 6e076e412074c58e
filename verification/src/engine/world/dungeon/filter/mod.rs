//! Filters: passes that add or subtract features from a grid of tiles.

use crate::engine::world::dungeon::map::Grid;
use vstd::prelude::*;

pub mod simple;
pub use self::simple::Simple;
pub mod stain;
pub use self::stain::Stain;
pub mod viscera;
pub use self::viscera::Viscera;
pub mod structure;


verus! {

/// A uniform set of behavior for dungeon generation passes.
pub trait Filter {
    /// What type `T` of `Grid<T>` the filter works on.
    type Output: Clone;

    /// The grids (with this filter's state) that `apply` accepts.
    spec fn fits(&self, grid: Grid<Self::Output>) -> bool;

    /// Run the pass over `grid`.
    fn apply(&mut self, grid: &mut Grid<Self::Output>)
        requires
            old(self).fits(*old(grid)),
    ;
}

} // verus!
