//! A grid of tiles, indexed `[x][y]`.

use super::pos::Pos;
use super::tile::{Tile, TileView};
use vstd::prelude::*;

verus! {

/// A 2D vector of `T`s, indexed `[x][y]`.
pub type Grid<T> = Vec<Vec<T>>;

/// The tile at column `x`, row `y`.
pub open spec fn cell(g: Grid<Tile>, x: int, y: int) -> TileView {
    g@[x]@[y]@
}

/// `g` has `w` columns of `h` tiles each.
pub open spec fn is_grid(g: Grid<Tile>, w: int, h: int) -> bool {
    &&& g@.len() == w
    &&& forall|x: int| 0 <= x < w ==> (#[trigger] g@[x])@.len() == h
}

/// `a` and `b` have the same columns lengths.
pub open spec fn same_shape(a: Grid<Tile>, b: Grid<Tile>) -> bool {
    &&& a@.len() == b@.len()
    &&& forall|x: int| 0 <= x < a@.len() ==> (#[trigger] a@[x])@.len() == b@[x]@.len()
}

/// `g` has `g@.len()` columns, each as long as the first one.
pub open spec fn rect_grid(g: Grid<Tile>) -> bool {
    &&& g@.len() > 0
    &&& forall|x: int| 0 <= x < g@.len() ==> (#[trigger] g@[x])@.len() == g@[0]@.len()
}

/// `(x, y)` names a tile of `g`.
pub open spec fn in_grid(g: Grid<Tile>, x: int, y: int) -> bool {
    0 <= x < g@.len() && 0 <= y < g@[x]@.len()
}

/// `b` is `a` with the tile at `(x, y)` replaced by `t`.
pub open spec fn grid_updated(a: Grid<Tile>, b: Grid<Tile>, x: int, y: int, t: TileView) -> bool {
    &&& same_shape(a, b)
    &&& forall|i: int, j: int|
        in_grid(a, i, j) ==> #[trigger] cell(b, i, j) == if i == x && j == y {
            t
        } else {
            cell(a, i, j)
        }
}

/// The tile at `idx`.
pub fn index(grid: &Grid<Tile>, idx: Pos) -> (t: &Tile)
    requires
        in_grid(*grid, idx.x as int, idx.y as int),
    ensures
        t@ == cell(*grid, idx.x as int, idx.y as int),
{
    &grid[idx.x as usize][idx.y as usize]
}

/// Replace the tile at `idx`.
pub fn index_set(grid: &mut Grid<Tile>, idx: Pos, t: Tile)
    requires
        in_grid(*old(grid), idx.x as int, idx.y as int),
    ensures
        grid_updated(*old(grid), *final(grid), idx.x as int, idx.y as int, t@),
{
    set_cell(grid, idx.x as usize, idx.y as usize, t);
}

/// Replace the tile at column `x`, row `y`.
pub(crate) fn set_cell(grid: &mut Grid<Tile>, x: usize, y: usize, t: Tile)
    requires
        in_grid(*old(grid), x as int, y as int),
    ensures
        grid_updated(*old(grid), *final(grid), x as int, y as int, t@),
{
    let ghost tv = t@;
    grid[x][y] = t;
    assert forall|i: int, j: int| in_grid(*old(grid), i, j) implies #[trigger] cell(*grid, i, j) == if i == x && j == y {
        tv
    } else {
        cell(*old(grid), i, j)
    } by {
        if i != x {
            assert(grid@[i] == old(grid)@[i]);
        }
    }
}

} // verus!

verus! {

/// The number of columns.
pub fn grid_width(grid: &Grid<Tile>) -> (w: usize)
    ensures
        w == grid@.len(),
{
    grid.len()
}

/// The length of the first column.
pub fn grid_height(grid: &Grid<Tile>) -> (h: usize)
    requires
        grid@.len() > 0,
    ensures
        h == grid@[0]@.len(),
{
    grid[0].len()
}

/// `a` and `b` have the same shape and differ at most inside the `d` by `d` square whose
/// corner is `(x, y)`, where each tile is related to its old self by `rel`.
pub open spec fn changed_within(
    a: Grid<Tile>,
    b: Grid<Tile>,
    x: int,
    y: int,
    d: int,
    rel: spec_fn(TileView, TileView) -> bool,
) -> bool {
    &&& same_shape(a, b)
    &&& forall|i: int, j: int|
        in_grid(a, i, j) ==> if x <= i < x + d && y <= j < y + d {
            rel(cell(a, i, j), #[trigger] cell(b, i, j))
        } else {
            cell(b, i, j) == cell(a, i, j)
        }
}

} // verus!

verus! {

/// All the tiles of a grid, column by column.
pub open spec fn grid_cells(g: Grid<Tile>) -> Seq<Seq<TileView>> {
    g@.map_values(|col: Vec<Tile>| col@.map_values(|t: Tile| t@))
}

/// A copy of the grid, tile for tile.
pub fn clone_grid(g: &Grid<Tile>) -> (c: Grid<Tile>)
    ensures
        same_shape(*g, c),
        grid_cells(c) == grid_cells(*g),
{
    let mut c: Grid<Tile> = Vec::new();
    let mut x: usize = 0;
    while x < g.len()
        invariant
            x <= g@.len(),
            c@.len() == x,
            forall|i: int| 0 <= i < x ==> (#[trigger] c@[i])@.len() == g@[i]@.len(),
            forall|i: int, j: int| 0 <= i < x && 0 <= j < g@[i]@.len() ==> #[trigger] cell(c, i, j) == cell(*g, i, j),
        decreases g@.len() - x,
    {
        let mut col: Vec<Tile> = Vec::new();
        let mut y: usize = 0;
        while y < g[x].len()
            invariant
                x < g@.len(),
                y <= g@[x as int]@.len(),
                col@.len() == y,
                forall|j: int| 0 <= j < y ==> (#[trigger] col@[j])@ == g@[x as int]@[j]@,
            decreases g@[x as int]@.len() - y,
        {
            col.push(g[x][y].clone());
            y = y + 1;
        }
        let ghost c0 = c;
        c.push(col);
        assert forall|i: int, j: int| 0 <= i < x + 1 && 0 <= j < g@[i]@.len() implies #[trigger] cell(c, i, j) == cell(*g, i, j) by {
            if i < x {
                assert(c@[i] == c0@[i]);
                assert(cell(c0, i, j) == cell(*g, i, j));
            } else {
                assert(c@[i] == col);
                assert(col@[j]@ == g@[x as int]@[j]@);
            }
        }
        x = x + 1;
    }
    assert(grid_cells(c) =~~= grid_cells(*g)) by {
        assert forall|i: int| 0 <= i < c@.len() implies #[trigger] grid_cells(c)[i] =~= grid_cells(*g)[i] by {
            assert forall|j: int| 0 <= j < c@[i]@.len() implies #[trigger] grid_cells(c)[i][j] == grid_cells(*g)[i][j] by {
                assert(cell(c, i, j) == cell(*g, i, j));
            }
        }
    }
    c
}

} // verus!
