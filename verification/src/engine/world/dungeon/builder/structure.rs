//! A builder that places one prefab structure on a grid it owns.

use crate::engine::world::dungeon::map::grid::rect_grid;
use crate::engine::world::dungeon::filter::structure::{
    lemma_prefab_rect, prefab_cells, placed_turned, prefab_ok, read_prefab, rect_cells, rot_n, stamp, struct_outcome,
};
use crate::engine::world::dungeon::map::grid::{clone_grid, grid_cells, is_grid};
use crate::engine::world::dungeon::map::{Grid, Tile};
use crate::random::gen_range;
use vstd::prelude::*;

verus! {

/// A builder holding the grid it works on and that grid's dimensions.
#[derive(Debug)]
pub struct Structure {
    grid: Grid<Tile>,
    w: usize,
    h: usize,
}

impl Structure {
    /// The grid being built.
    pub closed spec fn grid(&self) -> Grid<Tile> {
        self.grid
    }

    /// The grid's width, as measured at construction.
    pub closed spec fn width(&self) -> usize {
        self.w
    }

    /// The grid's height (its first column's length), as measured at construction.
    pub closed spec fn height(&self) -> usize {
        self.h
    }

    /// The grid is a `width` by `height` rectangle.
    pub closed spec fn wf(&self) -> bool {
        is_grid(self.grid, self.w as int, self.h as int)
    }

    /// Stamp the tiles `strct` with their corner at `(x, y)`, unless they would reach the
    /// last column or row (then the grid is left alone).
    fn place_at(&mut self, strct: &Grid<Tile>, x: usize, y: usize)
        requires
            old(self).wf(),
            old(self).w > 0,
            old(self).h > 0,
            rect_cells(grid_cells(*strct)),
            strct@.len() <= usize::MAX / 2,
            strct@[0]@.len() <= usize::MAX / 2,
            x <= usize::MAX / 2,
            y <= usize::MAX / 2,
        ensures
            final(self).wf(),
            final(self).w == old(self).w && final(self).h == old(self).h,
            struct_outcome(old(self).grid, final(self).grid, grid_cells(*strct), 0, x as int, y as int),
    {
        let ghost s = grid_cells(*strct);
        assert(s.len() == strct@.len() && s[0].len() == strct@[0]@.len());
        let w = strct.len();
        let h = strct[0].len();
        if x + w > self.w - 1 || y + h > self.h - 1 {
            assert(struct_outcome(old(self).grid, self.grid, s, 0, x as int, y as int));
            return;
        }
        let ghost g0 = self.grid;
        assert forall|i: int| x <= i < x + w implies y + h <= (#[trigger] self.grid@[i])@.len() by {}
        stamp(&mut self.grid, strct, x, y);
        assert(placed_turned(g0, self.grid, s, 0, x as int, y as int));
        assert(struct_outcome(g0, self.grid, s, 0, x as int, y as int));
        assert forall|i: int| 0 <= i < self.w implies (#[trigger] self.grid@[i])@.len() == self.h by {
            assert(self.grid@[i]@.len() == g0@[i]@.len());
        }
    }

    /// Parse `prefab` and stamp it at a random corner `(x, y)`, `x` at most its width and
    /// `y` at most its height, unless it would reach the last column or row.
    fn add_rand_struct(&mut self, prefab: &Vec<char>)
        requires
            old(self).wf(),
            old(self).w > 0,
            old(self).h > 0,
            prefab_ok(prefab@),
            prefab_cells(prefab@).len() <= usize::MAX / 2,
            prefab_cells(prefab@)[0].len() <= usize::MAX / 2,
        ensures
            final(self).wf(),
            final(self).w == old(self).w && final(self).h == old(self).h,
            exists|x: int, y: int|
                0 <= x <= prefab_cells(prefab@).len() && 0 <= y <= prefab_cells(prefab@)[0].len()
                    && #[trigger] struct_outcome(old(self).grid, final(self).grid, prefab_cells(prefab@), 0, x, y),
    {
        proof {
            lemma_prefab_rect(prefab@);
        }
        let strct = read_prefab(prefab);
        assert(prefab_cells(prefab@).len() == strct@.len() && prefab_cells(prefab@)[0].len() == strct@[0]@.len());
        let w = strct.len();
        let h = strct[0].len();
        let x = gen_range(0, w + 1);
        let y = gen_range(0, h + 1);
        self.place_at(&strct, x, y);
    }

    /// Parse `prefab` and stamp it with its corner at `(x, y)`, unless it would reach the
    /// last column or row (then the grid is left alone); return a copy of the resulting
    /// grid. This is `build` with the corner given.
    pub fn build_at(&mut self, prefab: &Vec<char>, x: usize, y: usize) -> (g: Grid<Tile>)
        requires
            old(self).wf(),
            old(self).width() > 0,
            old(self).height() > 0,
            prefab_ok(prefab@),
            prefab_cells(prefab@).len() <= usize::MAX / 2,
            prefab_cells(prefab@)[0].len() <= usize::MAX / 2,
            x <= usize::MAX / 2,
            y <= usize::MAX / 2,
        ensures
            final(self).wf(),
            final(self).width() == old(self).width() && final(self).height() == old(self).height(),
            grid_cells(g) == grid_cells(final(self).grid()),
            struct_outcome(old(self).grid(), final(self).grid(), prefab_cells(prefab@), 0, x as int, y as int),
    {
        proof {
            lemma_prefab_rect(prefab@);
        }
        let strct = read_prefab(prefab);
        self.place_at(&strct, x, y);
        clone_grid(&self.grid)
    }

    /// Return a new `Structure` working on a copy of `grid`.
    pub fn new(grid: Grid<Tile>) -> (s: Structure)
        requires
            grid@.len() > 0,
        ensures
            grid_cells(s.grid()) == grid_cells(grid),
            s.width() == grid@.len(),
            s.height() == grid@[0]@.len(),
            rect_grid(grid) ==> s.wf(),
    {
        let g = clone_grid(&grid);
        let s = Structure { grid: g, w: grid.len(), h: grid[0].len() };
        assert(rect_grid(grid) ==> is_grid(s.grid, s.w as int, s.h as int)) by {
            if rect_grid(grid) {
                assert forall|x: int| 0 <= x < s.w implies (#[trigger] s.grid@[x])@.len() == s.h by {
                    assert(s.grid@[x]@.len() == grid@[x]@.len());
                }
            }
        }
        s
    }

    /// Place a prefab structure at a random corner (as `add_rand_struct` does) and return
    /// a copy of the resulting grid. On a grid more than twice the structure's size in
    /// each direction, every corner fits and the structure is always placed.
    pub fn build(&mut self, prefab: &Vec<char>) -> (g: Grid<Tile>)
        requires
            old(self).wf(),
            old(self).width() > 0,
            old(self).height() > 0,
            prefab_ok(prefab@),
            prefab_cells(prefab@).len() <= usize::MAX / 2,
            prefab_cells(prefab@)[0].len() <= usize::MAX / 2,
        ensures
            final(self).wf(),
            final(self).width() == old(self).width() && final(self).height() == old(self).height(),
            grid_cells(g) == grid_cells(final(self).grid()),
            exists|x: int, y: int|
                0 <= x <= prefab_cells(prefab@).len() && 0 <= y <= prefab_cells(prefab@)[0].len()
                    && #[trigger] struct_outcome(old(self).grid(), final(self).grid(), prefab_cells(prefab@), 0, x, y),
            2 * prefab_cells(prefab@).len() <= old(self).width() - 1 && 2 * prefab_cells(prefab@)[0].len() <= old(self).height() - 1
                ==> exists|x: int, y: int| #[trigger] placed_turned(old(self).grid(), final(self).grid(), prefab_cells(prefab@), 0, x, y),
    {
        self.add_rand_struct(prefab);
        proof {
            let (x, y) = choose|x: int, y: int|
                0 <= x <= prefab_cells(prefab@).len() && 0 <= y <= prefab_cells(prefab@)[0].len()
                    && #[trigger] struct_outcome(old(self).grid(), self.grid(), prefab_cells(prefab@), 0, x, y);
            let c = prefab_cells(prefab@);
            if !(x + rot_n(c, 0).len() > old(self).grid()@.len() - 1 || y + rot_n(c, 0)[0].len() > old(self).grid()@[0]@.len() - 1) {
                assert(placed_turned(old(self).grid(), self.grid(), c, 0, x, y));
            }
        }
        clone_grid(&self.grid)
    }
}

} // verus!
