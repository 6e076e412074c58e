//! Cellular automata: the position handling and dice they share.

use crate::engine::world::dungeon::map::{Grid, Pos, Tile};
use crate::random::gen_range;
use vstd::prelude::*;

pub mod drunkards_walk;

verus! {

/// `v` is where `place_inbounds` can leave a coordinate on an axis of length `n`: one tile
/// away from each edge (for axes of length 2, the first tile).
pub open spec fn in_walk_zone(n: int, v: int) -> bool {
    (n >= 3 && 1 <= v <= n - 2) || (n == 2 && v == 0)
}

/// `v` raised to 1, then lowered to `n - 2` (in that order).
pub open spec fn place_coord(v: int, n: int) -> int {
    let lo = if v < 1 { 1 } else { v };
    if lo >= n - 2 { n - 2 } else { lo }
}

/// The given position, or a random one away from the edges: x in `[1, w - 2)`, y in `[1, h - 2)`.
pub fn unwrap_pos(grid: &Grid<Tile>, pos: Option<Pos>) -> (p: Pos)
    requires
        pos is None ==> grid@.len() > 3 && grid@[0]@.len() > 3,
        grid@.len() <= isize::MAX,
        grid@.len() > 0 ==> grid@[0]@.len() <= isize::MAX,
    ensures
        pos matches Some(q) ==> p == q,
        pos is None ==> 1 <= p.x < grid@.len() - 2 && 1 <= p.y < grid@[0]@.len() - 2,
{
    match pos {
        Some(pos) => pos,
        None => {
            let x = gen_range(1, grid.len() - 2);
            let y = gen_range(1, grid[0].len() - 2);
            Pos::from_usize(x, y)
        },
    }
}

/// Move a position into the grid, leaving a gap of one tile at each border.
pub fn place_inbounds(grid: &Grid<Tile>, pos: &mut Pos)
    requires
        2 <= grid@.len() <= isize::MAX,
        2 <= grid@[0]@.len() <= isize::MAX,
    ensures
        final(pos).x == place_coord(old(pos).x as int, grid@.len() as int),
        final(pos).y == place_coord(old(pos).y as int, grid@[0]@.len() as int),
        in_walk_zone(grid@.len() as int, final(pos).x as int),
        in_walk_zone(grid@[0]@.len() as int, final(pos).y as int),
{
    let w = grid.len();
    let h = grid[0].len();
    if pos.x < 1 {
        pos.x = 1;
    }
    if pos.y < 1 {
        pos.y = 1;
    }
    if pos.x >= (w - 2) as isize {
        pos.x = (w - 2) as isize;
    }
    if pos.y >= (h - 2) as isize {
        pos.y = (h - 2) as isize;
    }
}

/// A d4 roll, for movement along the axes.
pub fn get_d4() -> (r: usize)
    ensures
        1 <= r <= 4,
{
    gen_range(1, 5)
}

/// A d8 roll, for movement in all directions.
pub fn get_d8() -> (r: usize)
    ensures
        1 <= r <= 8,
{
    gen_range(1, 9)
}

/// A d9 roll: all directions plus the tile stood on.
pub fn get_d9() -> (r: usize)
    ensures
        1 <= r <= 9,
{
    gen_range(1, 10)
}

} // verus!
