//! Viscera: slightly randomized blood spread on walls and floors.

use super::stain::recolored;
use super::Filter;
use crate::engine::renderer::rgb::{rgb_add, RGB};
use crate::engine::world::dungeon::map::grid::{cell, grid_height, grid_width, in_grid, rect_grid, same_shape, set_cell};
use crate::engine::world::dungeon::map::tile::{TileView, Type};
use crate::engine::world::dungeon::map::{Grid, Tile};
use crate::random::gen_range;
use std::ops::AddAssign;
use vstd::prelude::*;

verus! {

/// Side of the square that one splash of blood covers.
pub const RADIUS: usize = 4;

/// A tile splashed with blood amounts `a` (< 40), `b` (< 10), `c` (< 50), `e` (< 10).
///
/// Walls get `22 + a` red and `b` green on the foreground, `12 + c` red and `e` green on the
/// background; floors get `a`, `b` and `c`, `e` without the offsets; other tiles are left alone.
pub open spec fn bloodied(t: TileView, a: u8, b: u8, c: u8, e: u8) -> TileView {
    if t.tiletype is Wall {
        TileView {
            fg: rgb_add(t.fg, RGB((22 + a) as u8, b, 0)),
            bg: rgb_add(t.bg, RGB((12 + c) as u8, e, 0)),
            ..t
        }
    } else if t.tiletype is Floor {
        TileView { fg: rgb_add(t.fg, RGB(a, b, 0)), bg: rgb_add(t.bg, RGB(c, e, 0)), ..t }
    } else {
        t
    }
}

/// The blood amounts lie in their ranges.
pub open spec fn blood_amounts_ok(a: u8, b: u8, c: u8, e: u8) -> bool {
    a < 40 && b < 10 && c < 50 && e < 10
}

/// `new` is `old`, or `old` splashed with blood amounts in range.
pub open spec fn may_bleed(old: TileView, new: TileView) -> bool {
    new == old || exists|a: u8, b: u8, c: u8, e: u8|
        blood_amounts_ok(a, b, c, e) && new == #[trigger] bloodied(old, a, b, c, e)
}

/// Only the colors of a floor or a wall changed.
pub open spec fn recolored_only(old: TileView, new: TileView) -> bool {
    recolored(old, new) && new.name == old.name
}

/// Every tile of `b` is `recolored_only` from the tile at the same place in `a`.
pub open spec fn all_recolored_only(a: Grid<Tile>, b: Grid<Tile>) -> bool {
    &&& same_shape(a, b)
    &&& forall|i: int, j: int| in_grid(a, i, j) ==> recolored_only(cell(a, i, j), #[trigger] cell(b, i, j))
}

/// Blood keeps names and only recolors floors and walls.
pub proof fn lemma_bleed_recolors_only(old: TileView, new: TileView)
    requires
        may_bleed(old, new),
    ensures
        recolored_only(old, new),
{
}

/// Color-only changes compose.
pub proof fn lemma_all_recolored_only_trans(a: Grid<Tile>, b: Grid<Tile>, c: Grid<Tile>)
    requires
        all_recolored_only(a, b),
        all_recolored_only(b, c),
    ensures
        all_recolored_only(a, c),
{
    assert forall|i: int, j: int| in_grid(a, i, j) implies recolored_only(cell(a, i, j), #[trigger] cell(c, i, j)) by {
        assert(recolored_only(cell(a, i, j), cell(b, i, j)));
        assert(in_grid(b, i, j));
        assert(recolored_only(cell(b, i, j), cell(c, i, j)));
    }
    assert forall|x: int| 0 <= x < a@.len() implies (#[trigger] a@[x])@.len() == c@[x]@.len() by {
        assert(a@[x]@.len() == b@[x]@.len());
    }
}

/// Only red and green were added, to the foreground and to the background.
pub open spec fn reddened(old: TileView, new: TileView) -> bool {
    &&& new.fg.0 >= old.fg.0 && new.fg.1 >= old.fg.1 && new.fg.2 == old.fg.2
    &&& new.bg.0 >= old.bg.0 && new.bg.1 >= old.bg.1 && new.bg.2 == old.bg.2
}

/// A place for a splash of blood on a `w` by `h` map.
pub open spec fn splash_ok(p: (int, int), w: int, h: int) -> bool {
    RADIUS <= p.0 < w - RADIUS - 1 && RADIUS <= p.1 < h - RADIUS - 1
}

/// `(i, j)` lies in the `RADIUS` by `RADIUS` square a splash at `p` covers, with corner
/// `(p.0 - RADIUS/2, p.1 - RADIUS/2)`.
pub open spec fn in_splash(p: (int, int), i: int, j: int) -> bool {
    p.0 - RADIUS / 2 <= i < p.0 - RADIUS / 2 + RADIUS && p.1 - RADIUS / 2 <= j < p.1 - RADIUS / 2 + RADIUS
}

/// `(i, j)` lies in one of the splashes at the places `ps`.
pub open spec fn in_some_splash(ps: Seq<(int, int)>, i: int, j: int) -> bool {
    exists|k: int| 0 <= k < ps.len() && in_splash(#[trigger] ps[k], i, j)
}

/// How many of the splashes at the places `ps` cover `(i, j)`.
pub open spec fn splash_covers(ps: Seq<(int, int)>, i: int, j: int) -> nat
    decreases ps.len(),
{
    if ps.len() == 0 {
        0
    } else {
        splash_covers(ps.drop_last(), i, j) + if in_splash(ps.last(), i, j) { 1nat } else { 0nat }
    }
}

/// `new` is `old` after `n` tries of blood, one after the other, each leaving what
/// `may_bleed` allows (amounts in the ranges of `bloodied`).
pub open spec fn rebled(old: TileView, new: TileView, n: nat) -> bool
    decreases n,
{
    if n == 0 {
        new == old
    } else {
        exists|mid: TileView| rebled(old, mid, (n - 1) as nat) && #[trigger] may_bleed(mid, new)
    }
}

/// What splashes at the places `ps` leave on `b` from `a`, colors aside: the places lie on
/// the map away from its edges, nothing outside the splashes changes, and tiles only get
/// redder or greener.
pub open spec fn splashed_within(a: Grid<Tile>, b: Grid<Tile>, ps: Seq<(int, int)>) -> bool {
    &&& forall|k: int| 0 <= k < ps.len() ==> splash_ok(#[trigger] ps[k], a@.len() as int, a@[0]@.len() as int)
    &&& forall|i: int, j: int| in_grid(a, i, j) && !in_some_splash(ps, i, j) ==> #[trigger] cell(b, i, j) == cell(a, i, j)
    &&& forall|i: int, j: int| in_grid(a, i, j) ==> reddened(cell(a, i, j), #[trigger] cell(b, i, j))
}

/// What splashes at the places `ps` leave on `b` from `a`: `splashed_within`, and every
/// tile has taken one try of blood per splash that covers it.
pub open spec fn splashed(a: Grid<Tile>, b: Grid<Tile>, ps: Seq<(int, int)>) -> bool {
    &&& splashed_within(a, b, ps)
    &&& forall|i: int, j: int| in_grid(a, i, j) ==> rebled(cell(a, i, j), #[trigger] cell(b, i, j), splash_covers(ps, i, j))
}

/// Within the splash at `(x, y)`, whose tiles take their blood column by column, `(p, q)`
/// has had its try once the column offset `i` and row offset `j` have passed it.
pub open spec fn bled_so_far(x: int, y: int, i: int, j: int, p: int, q: int) -> bool {
    &&& in_splash((x, y), p, q)
    &&& (p - (x - RADIUS / 2) < i || (p - (x - RADIUS / 2) == i && q - (y - RADIUS / 2) < j))
}

/// One more try of blood on the tile at offsets `(i, j)` of the splash at `(x, y)` moves
/// it from untried to tried.
proof fn lemma_bleed_step(
    g0: Grid<Tile>,
    before: Grid<Tile>,
    after: Grid<Tile>,
    ps: Seq<(int, int)>,
    x: int,
    y: int,
    i: int,
    j: int,
)
    requires
        0 <= i < RADIUS,
        0 <= j < RADIUS,
        same_shape(g0, before),
        same_shape(before, after),
        forall|p: int, q: int|
            in_grid(g0, p, q) ==> rebled(cell(g0, p, q), #[trigger] cell(before, p, q),
                splash_covers(ps, p, q) + if bled_so_far(x, y, i, j, p, q) { 1nat } else { 0nat }),
        forall|p: int, q: int|
            in_grid(before, p, q) ==> if p == x + i - 2 && q == y + j - 2 {
                may_bleed(cell(before, p, q), #[trigger] cell(after, p, q))
            } else {
                cell(after, p, q) == cell(before, p, q)
            },
    ensures
        forall|p: int, q: int|
            in_grid(g0, p, q) ==> rebled(cell(g0, p, q), #[trigger] cell(after, p, q),
                splash_covers(ps, p, q) + if bled_so_far(x, y, i, j + 1, p, q) { 1nat } else { 0nat }),
{
    assert forall|p: int, q: int| in_grid(g0, p, q) implies rebled(cell(g0, p, q), #[trigger] cell(after, p, q),
        splash_covers(ps, p, q) + if bled_so_far(x, y, i, j + 1, p, q) { 1nat } else { 0nat }) by {
        assert(in_grid(before, p, q));
        let n0 = splash_covers(ps, p, q) + if bled_so_far(x, y, i, j, p, q) { 1nat } else { 0nat };
        assert(rebled(cell(g0, p, q), cell(before, p, q), n0));
        if p == x + i - 2 && q == y + j - 2 {
            assert(!bled_so_far(x, y, i, j, p, q));
            assert(bled_so_far(x, y, i, j + 1, p, q));
            assert(may_bleed(cell(before, p, q), cell(after, p, q)));
            assert(rebled(cell(g0, p, q), cell(after, p, q), n0 + 1));
        } else {
            assert(bled_so_far(x, y, i, j + 1, p, q) == bled_so_far(x, y, i, j, p, q));
        }
    }
}

/// Blood only adds red and green.
proof fn lemma_bleed_reddens(old: TileView, new: TileView)
    requires
        may_bleed(old, new),
    ensures
        reddened(old, new),
{
    if new != old {
        let (a, b, c, e) = choose|a: u8, b: u8, c: u8, e: u8|
            blood_amounts_ok(a, b, c, e) && new == #[trigger] bloodied(old, a, b, c, e);
        assert(new == bloodied(old, a, b, c, e));
    }
}

/// One more splash of one tile, inside the splash at the last place, keeps `splashed_within`.
proof fn lemma_splash_step(g0: Grid<Tile>, before: Grid<Tile>, after: Grid<Tile>, ps: Seq<(int, int)>, tx: int, ty: int)
    requires
        splashed_within(g0, before, ps),
        ps.len() > 0,
        in_splash(ps[ps.len() - 1], tx, ty),
        same_shape(g0, before),
        same_shape(before, after),
        forall|i: int, j: int|
            in_grid(before, i, j) ==> if i == tx && j == ty {
                may_bleed(cell(before, i, j), #[trigger] cell(after, i, j))
            } else {
                cell(after, i, j) == cell(before, i, j)
            },
    ensures
        splashed_within(g0, after, ps),
{
    assert forall|i: int, j: int| in_grid(g0, i, j) implies
        (!in_some_splash(ps, i, j) ==> #[trigger] cell(after, i, j) == cell(g0, i, j))
        && reddened(cell(g0, i, j), cell(after, i, j)) by {
        assert(in_grid(before, i, j));
        assert(reddened(cell(g0, i, j), cell(before, i, j)));
        if i == tx && j == ty {
            lemma_bleed_reddens(cell(before, i, j), cell(after, i, j));
            assert(in_some_splash(ps, i, j));
        }
    }
}

/// Viscera generator.
#[derive(Copy, Clone, PartialEq, Eq, Debug, Structural)]
pub struct Viscera;

impl Viscera {
    /// Splash `tile` with the given blood amounts.
    pub fn bloody_with(tile: &mut Tile, a: u8, b: u8, c: u8, e: u8)
        requires
            blood_amounts_ok(a, b, c, e),
        ensures
            final(tile)@ == bloodied(old(tile)@, a, b, c, e),
    {
        match tile.tiletype {
            Type::Wall(_) => {
                tile.fg.add_assign(RGB(22 + a, b, 0));
                tile.bg.add_assign(RGB(12 + c, e, 0));
            },
            Type::Floor(_) => {
                tile.fg.add_assign(RGB(a, b, 0));
                tile.bg.add_assign(RGB(c, e, 0));
            },
            _ => {},
        }
    }

    /// With one chance in two, splash the tile at `(x - RADIUS/2, y - RADIUS/2)`.
    pub fn viscerize(x: usize, y: usize, grid: &mut Grid<Tile>)
        requires
            x >= RADIUS / 2,
            y >= RADIUS / 2,
            in_grid(*old(grid), x - RADIUS / 2, y - RADIUS / 2),
        ensures
            same_shape(*old(grid), *final(grid)),
            forall|i: int, j: int|
                in_grid(*old(grid), i, j) ==> if i == x - RADIUS / 2 && j == y - RADIUS / 2 {
                    may_bleed(cell(*old(grid), i, j), #[trigger] cell(*final(grid), i, j))
                } else {
                    cell(*final(grid), i, j) == cell(*old(grid), i, j)
                },
    {
        if gen_range(0, 2) == 0 {
            let tx = x - (RADIUS / 2);
            let ty = y - (RADIUS / 2);
            let is_target = match grid[tx][ty].tiletype {
                Type::Wall(_) | Type::Floor(_) => true,
                _ => false,
            };
            if is_target {
                let a = gen_range(0, 40) as u8;
                let b = gen_range(0, 10) as u8;
                let c = gen_range(0, 50) as u8;
                let e = gen_range(0, 10) as u8;
                let mut t = grid[tx][ty].clone();
                Viscera::bloody_with(&mut t, a, b, c, e);
                set_cell(grid, tx, ty, t);
                assert(may_bleed(cell(*old(grid), tx as int, ty as int), cell(*grid, tx as int, ty as int)));
            }
        }
    }

    /// Add five to fourteen splashes of blood at random places on the map.
    fn add_blood_random(&self, grid: &mut Grid<Tile>)
        requires
            rect_grid(*old(grid)),
            old(grid)@.len() > 2 * RADIUS + 1,
            old(grid)@[0]@.len() > 2 * RADIUS + 1,
        ensures
            rect_grid(*final(grid)),
            all_recolored_only(*old(grid), *final(grid)),
            exists|ps: Seq<(int, int)>| 5 <= ps.len() < 15 && #[trigger] splashed(*old(grid), *final(grid), ps),
    {
        let ghost g0 = *grid;
        let ghost mut ps: Seq<(int, int)> = Seq::empty();
        let count = gen_range(5, 15);
        let mut k: usize = 0;
        while k < count
            invariant
                rect_grid(g0),
                g0@.len() > 2 * RADIUS + 1,
                g0@[0]@.len() > 2 * RADIUS + 1,
                rect_grid(*grid),
                all_recolored_only(g0, *grid),
                k <= count,
                ps.len() == k,
                splashed(g0, *grid, ps),
            decreases count - k,
        {
            assert(grid@[0]@.len() == g0@[0]@.len());
            let total_w = grid_width(grid);
            let total_h = grid_height(grid);
            let x = gen_range(RADIUS, total_w - RADIUS - 1);
            let y = gen_range(RADIUS, total_h - RADIUS - 1);
            let ghost ps2 = ps.push((x as int, y as int));
            proof {
                assert(ps2[ps.len() as int] == (x as int, y as int));
                assert(ps2.drop_last() =~= ps);
                assert forall|p: int, q: int| in_grid(g0, p, q) implies rebled(cell(g0, p, q), #[trigger] cell(*grid, p, q),
                    splash_covers(ps, p, q) + if bled_so_far(x as int, y as int, 0, 0, p, q) { 1nat } else { 0nat }) by {
                }
                assert forall|m: int| 0 <= m < ps2.len() implies splash_ok(#[trigger] ps2[m], g0@.len() as int, g0@[0]@.len() as int) by {
                    if m < ps.len() {
                        assert(ps2[m] == ps[m]);
                    }
                }
                assert forall|a: int, b: int| in_grid(g0, a, b) && !in_some_splash(ps2, a, b) implies #[trigger] cell(*grid, a, b) == cell(g0, a, b) by {
                    if in_some_splash(ps, a, b) {
                        let m = choose|m: int| 0 <= m < ps.len() && in_splash(#[trigger] ps[m], a, b);
                        assert(ps2[m] == ps[m]);
                    }
                }
            }
            let mut i: usize = 0;
            while i < RADIUS
                invariant
                    rect_grid(g0),
                    g0@.len() == total_w,
                    g0@[0]@.len() == total_h,
                    RADIUS <= x < total_w - RADIUS - 1,
                    RADIUS <= y < total_h - RADIUS - 1,
                    rect_grid(*grid),
                    all_recolored_only(g0, *grid),
                    ps2 == ps.push((x as int, y as int)),
                    splashed_within(g0, *grid, ps2),
                    i <= RADIUS,
                    forall|p: int, q: int|
                        in_grid(g0, p, q) ==> rebled(cell(g0, p, q), #[trigger] cell(*grid, p, q),
                            splash_covers(ps, p, q) + if bled_so_far(x as int, y as int, i as int, 0, p, q) { 1nat } else { 0nat }),
                decreases RADIUS - i,
            {
                let mut j: usize = 0;
                while j < RADIUS
                    invariant
                        rect_grid(g0),
                        g0@.len() == total_w,
                        g0@[0]@.len() == total_h,
                        RADIUS <= x < total_w - RADIUS - 1,
                        RADIUS <= y < total_h - RADIUS - 1,
                        i < RADIUS,
                        rect_grid(*grid),
                        all_recolored_only(g0, *grid),
                        ps2 == ps.push((x as int, y as int)),
                        splashed_within(g0, *grid, ps2),
                        j <= RADIUS,
                        forall|p: int, q: int|
                            in_grid(g0, p, q) ==> rebled(cell(g0, p, q), #[trigger] cell(*grid, p, q),
                                splash_covers(ps, p, q) + if bled_so_far(x as int, y as int, i as int, j as int, p, q) { 1nat } else { 0nat }),
                    decreases RADIUS - j,
                {
                    let ghost before = *grid;
                    assert(grid@.len() == total_w);
                    assert(grid@[x + i - 2]@.len() == grid@[0]@.len());
                    assert(grid@[0]@.len() == g0@[0]@.len());
                    Viscera::viscerize(x + i, y + j, grid);
                    proof {
                        assert forall|a: int, b: int| in_grid(before, a, b) implies recolored_only(cell(before, a, b), #[trigger] cell(*grid, a, b)) by {
                            if a == x + i - 2 && b == y + j - 2 {
                                lemma_bleed_recolors_only(cell(before, a, b), cell(*grid, a, b));
                            }
                        }
                        lemma_all_recolored_only_trans(g0, before, *grid);
                        assert(ps2[ps2.len() - 1] == (x as int, y as int));
                        lemma_splash_step(g0, before, *grid, ps2, x + i - 2, y + j - 2);
                        lemma_bleed_step(g0, before, *grid, ps, x as int, y as int, i as int, j as int);
                        assert forall|a: int| 0 <= a < grid@.len() implies (#[trigger] grid@[a])@.len() == grid@[0]@.len() by {
                            assert(grid@[a]@.len() == before@[a]@.len());
                            assert(grid@[0]@.len() == before@[0]@.len());
                        }
                    }
                    j = j + 1;
                }
                proof {
                    assert forall|p: int, q: int| in_grid(g0, p, q) implies rebled(cell(g0, p, q), #[trigger] cell(*grid, p, q),
                        splash_covers(ps, p, q) + if bled_so_far(x as int, y as int, i + 1, 0, p, q) { 1nat } else { 0nat }) by {
                        assert(bled_so_far(x as int, y as int, i + 1, 0, p, q) == bled_so_far(x as int, y as int, i as int, RADIUS as int, p, q));
                    }
                }
                i = i + 1;
            }
            proof {
                assert forall|p: int, q: int| in_grid(g0, p, q) implies rebled(cell(g0, p, q), #[trigger] cell(*grid, p, q),
                    splash_covers(ps2, p, q)) by {
                    assert(bled_so_far(x as int, y as int, RADIUS as int, 0, p, q) == in_splash((x as int, y as int), p, q));
                    assert(splash_covers(ps2, p, q) == splash_covers(ps, p, q) + if in_splash(ps2.last(), p, q) { 1nat } else { 0nat });
                }
                ps = ps2;
            }
            k = k + 1;
        }
    }

    /// Return a new `Viscera`.
    pub fn new() -> (v: Viscera)
        ensures
            v == Viscera,
    {
        Viscera {}
    }
}

impl Filter for Viscera {
    type Output = Tile;

    open spec fn fits(&self, grid: Grid<Tile>) -> bool {
        &&& rect_grid(grid)
        &&& grid@.len() > 2 * RADIUS + 1
        &&& grid@[0]@.len() > 2 * RADIUS + 1
    }

    /// Spread blood randomly: five to fourteen splashes, away from the edges, that only
    /// add red and green; each tile takes one try of blood (see `may_bleed` for the amounts)
    /// per splash that covers it.
    fn apply(&mut self, grid: &mut Grid<Tile>)
        ensures
            all_recolored_only(*old(grid), *final(grid)),
            exists|ps: Seq<(int, int)>| 5 <= ps.len() < 15 && #[trigger] splashed(*old(grid), *final(grid), ps),
    {
        self.add_blood_random(grid);
    }
}

} // verus!
