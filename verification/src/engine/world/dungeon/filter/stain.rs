//! Stains: a graphical effect that permanently alters the colors (and names) of tiles.

use super::Filter;
use std::ops::{AddAssign, SubAssign};
use crate::engine::renderer::rgb::{rgb_add, rgb_sub, RGB};
use crate::engine::world::dungeon::map::grid::{
    cell, changed_within, grid_height, grid_width, in_grid, rect_grid, same_shape, set_cell,
};
use crate::engine::world::dungeon::map::tile::{TileView, Type};
use crate::engine::world::dungeon::map::{Grid, Tile};
use crate::random::gen_range;
use vstd::prelude::*;

verus! {

/// Side of the square that blood stains cover.
pub const VISCERA_DIAMETER: usize = 5;

const VISCERA_FG: u8 = 40;

const VISCERA_BG: u8 = 50;

const MOSS_FG: u8 = 5;

const MOSS_BG: u8 = 10;

const FUNGUS_FG: u8 = 20;

const FUNGUS_BG: u8 = 40;

const CORRUPTION_FG: u8 = 100;

const CORRUPTION_BG: u8 = 100;

/// Kinds of stain.
#[derive(Copy, Clone, PartialEq, Eq, Debug, Structural)]
pub enum StainType {
    Viscera,
    Moss,
    Fungus,
    Corruption,
}

/// Exclusive bound of the first random amount a stain of this kind draws.
pub open spec fn first_bound(kind: StainType) -> u8 {
    match kind {
        StainType::Viscera => 40u8,
        StainType::Moss => 5u8,
        StainType::Fungus => 20u8,
        StainType::Corruption => 100u8,
    }
}

/// Exclusive bound of the second random amount a stain of this kind draws.
pub open spec fn second_bound(kind: StainType) -> u8 {
    match kind {
        StainType::Viscera => 50u8,
        StainType::Moss => 10u8,
        StainType::Fungus => 40u8,
        StainType::Corruption => 100u8,
    }
}

/// A tile stained with amounts `a` and `b`.
///
/// Floors: blood adds `12 + a` red to the foreground and `22 + b` red to the background; moss
/// adds `a` and `b` green; fungus adds `a` red and blue to the foreground and `a` red, `b` blue
/// to the background; corruption takes `a` from each foreground channel and `b` from each
/// background channel. Walls take the same stains, except that blood adds only `a` and `b`
/// red and fungus leaves them alone. Every other tile is left alone.
pub open spec fn stained(t: TileView, kind: StainType, a: u8, b: u8) -> TileView {
    if t.tiletype is Floor {
        match kind {
            StainType::Viscera => TileView {
                name: "Bloody Floor"@,
                fg: rgb_add(t.fg, RGB((12 + a) as u8, 0, 0)),
                bg: rgb_add(t.bg, RGB((22 + b) as u8, 0, 0)),
                ..t
            },
            StainType::Moss => TileView {
                name: "Mossy Floor"@,
                fg: rgb_add(t.fg, RGB(0, a, 0)),
                bg: rgb_add(t.bg, RGB(0, b, 0)),
                ..t
            },
            StainType::Fungus => TileView {
                name: "Fungal Bloom"@,
                fg: rgb_add(t.fg, RGB(a, 0, a)),
                bg: rgb_add(t.bg, RGB(a, 0, b)),
                ..t
            },
            StainType::Corruption => TileView {
                name: "Corrupted Floor"@,
                fg: rgb_sub(t.fg, RGB(a, a, a)),
                bg: rgb_sub(t.bg, RGB(b, b, b)),
                ..t
            },
        }
    } else if t.tiletype is Wall {
        match kind {
            StainType::Viscera => TileView {
                name: "Bloody Wall"@,
                fg: rgb_add(t.fg, RGB(a, 0, 0)),
                bg: rgb_add(t.bg, RGB(b, 0, 0)),
                ..t
            },
            StainType::Moss => TileView {
                name: "Mossy Wall"@,
                fg: rgb_add(t.fg, RGB(0, a, 0)),
                bg: rgb_add(t.bg, RGB(0, b, 0)),
                ..t
            },
            StainType::Fungus => t,
            StainType::Corruption => TileView {
                name: "Corrupted Wall"@,
                fg: rgb_sub(t.fg, RGB(a, a, a)),
                bg: rgb_sub(t.bg, RGB(b, b, b)),
                ..t
            },
        }
    } else {
        t
    }
}

/// Moss only greens: on any tile it leaves the red and blue of both colors as they were,
/// and raises the green of a floor or wall by the amounts (capped at 255), foreground by
/// `a` and background by `b`.
pub proof fn lemma_moss_only_greens(t: TileView, a: u8, b: u8)
    ensures
        ({
            let n = stained(t, StainType::Moss, a, b);
            &&& n.fg.0 == t.fg.0 && n.fg.2 == t.fg.2
            &&& n.bg.0 == t.bg.0 && n.bg.2 == t.bg.2
            &&& n.fg.1 >= t.fg.1 && n.bg.1 >= t.bg.1
            &&& (t.tiletype is Floor || t.tiletype is Wall) ==> {
                &&& n.fg.1 == if t.fg.1 + a > 255 { 255 } else { t.fg.1 + a }
                &&& n.bg.1 == if t.bg.1 + b > 255 { 255 } else { t.bg.1 + b }
            }
        }),
{
}

/// Blood (in its amounts' ranges) only reddens: it leaves green and blue as they were,
/// never lowers red, and always reddens a floor's foreground unless already at full red.
pub proof fn lemma_blood_only_reddens(t: TileView, a: u8, b: u8)
    requires
        a < first_bound(StainType::Viscera),
        b < second_bound(StainType::Viscera),
    ensures
        ({
            let n = stained(t, StainType::Viscera, a, b);
            &&& n.fg.1 == t.fg.1 && n.fg.2 == t.fg.2 && n.bg.1 == t.bg.1 && n.bg.2 == t.bg.2
            &&& n.fg.0 >= t.fg.0 && n.bg.0 >= t.bg.0
            &&& t.tiletype is Floor ==> n.fg.0 > t.fg.0 || n.fg.0 == 255
        }),
{
}

/// Fungus blooms on floors only: it leaves green as it was, never lowers red or blue,
/// and leaves every other tile, walls included, untouched.
pub proof fn lemma_fungus_purples_floors(t: TileView, a: u8, b: u8)
    ensures
        ({
            let n = stained(t, StainType::Fungus, a, b);
            &&& n.fg.1 == t.fg.1 && n.bg.1 == t.bg.1
            &&& n.fg.0 >= t.fg.0 && n.fg.2 >= t.fg.2 && n.bg.0 >= t.bg.0 && n.bg.2 >= t.bg.2
            &&& !(t.tiletype is Floor) ==> n == t
        }),
{
}

/// Corruption only darkens: no channel of either color rises.
pub proof fn lemma_corruption_darkens(t: TileView, a: u8, b: u8)
    ensures
        ({
            let n = stained(t, StainType::Corruption, a, b);
            &&& n.fg.0 <= t.fg.0 && n.fg.1 <= t.fg.1 && n.fg.2 <= t.fg.2
            &&& n.bg.0 <= t.bg.0 && n.bg.1 <= t.bg.1 && n.bg.2 <= t.bg.2
        }),
{
}

/// `new` is `old`, or `old` stained with amounts in range.
pub open spec fn may_stain(old: TileView, new: TileView, kind: StainType) -> bool {
    new == old || exists|a: u8, b: u8|
        a < first_bound(kind) && b < second_bound(kind) && new == #[trigger] stained(old, kind, a, b)
}

/// `new` is `old` stained with amounts in range (for tiles a stain does not take, that is `old`).
pub open spec fn must_stain(old: TileView, new: TileView, kind: StainType) -> bool {
    exists|a: u8, b: u8| a < first_bound(kind) && b < second_bound(kind) && new == #[trigger] stained(old, kind, a, b)
}

/// What one try of a stain leaves: certainly a stain when `certain`, else possibly one.
pub open spec fn stain_outcome(old: TileView, new: TileView, kind: StainType, certain: bool) -> bool {
    if certain {
        must_stain(old, new, kind)
    } else {
        may_stain(old, new, kind)
    }
}

/// Only the name and the colors of a floor or a wall changed.
pub open spec fn recolored(old: TileView, new: TileView) -> bool {
    &&& new.glyph == old.glyph
    &&& new.biome == old.biome
    &&& new.scents == old.scents
    &&& new.sound == old.sound
    &&& new.tiletype == old.tiletype
    &&& new.seen == old.seen
    &&& !(old.tiletype is Floor || old.tiletype is Wall) ==> new == old
}

/// Staining never changes anything of a tile but its name and colors, and only on floors and walls.
pub proof fn lemma_stain_recolors(old: TileView, new: TileView, kind: StainType, certain: bool)
    requires
        stain_outcome(old, new, kind, certain),
    ensures
        recolored(old, new),
{
}

/// Every tile of `b` is a recoloring of the tile at the same place in `a`.
pub open spec fn all_recolored(a: Grid<Tile>, b: Grid<Tile>) -> bool {
    &&& same_shape(a, b)
    &&& forall|i: int, j: int| in_grid(a, i, j) ==> recolored(cell(a, i, j), #[trigger] cell(b, i, j))
}

/// A square of stains only recolors.
pub proof fn lemma_square_recolors(a: Grid<Tile>, b: Grid<Tile>, x: int, y: int, d: int, kind: StainType, certain: bool)
    requires
        changed_within(a, b, x, y, d, |o: TileView, n: TileView| stain_outcome(o, n, kind, certain)),
    ensures
        all_recolored(a, b),
{
    assert forall|i: int, j: int| in_grid(a, i, j) implies recolored(cell(a, i, j), #[trigger] cell(b, i, j)) by {
        if x <= i < x + d && y <= j < y + d {
            lemma_stain_recolors(cell(a, i, j), cell(b, i, j), kind, certain);
        }
    }
}

/// Recolorings compose.
pub proof fn lemma_all_recolored_trans(a: Grid<Tile>, b: Grid<Tile>, c: Grid<Tile>)
    requires
        all_recolored(a, b),
        all_recolored(b, c),
    ensures
        all_recolored(a, c),
{
    assert forall|i: int, j: int| in_grid(a, i, j) implies recolored(cell(a, i, j), #[trigger] cell(c, i, j)) by {
        assert(recolored(cell(a, i, j), cell(b, i, j)));
        assert(in_grid(b, i, j));
        assert(recolored(cell(b, i, j), cell(c, i, j)));
    }
    assert forall|x: int| 0 <= x < a@.len() implies (#[trigger] a@[x])@.len() == c@[x]@.len() by {
        assert(a@[x]@.len() == b@[x]@.len());
    }
}

/// The `d` by `d` square with corner `(x - d/2, y - d/2)` lies in the grid.
pub open spec fn square_fits(g: Grid<Tile>, x: int, y: int, d: int) -> bool {
    &&& x >= d / 2 && y >= d / 2
    &&& x + d <= usize::MAX && y + d <= usize::MAX
    &&& x - d / 2 + d <= g@.len()
    &&& forall|i: int| x - d / 2 <= i < x - d / 2 + d ==> y - d / 2 + d <= (#[trigger] g@[i])@.len()
}

/// The name a stain of `kind` gives `t` (the amounts do not matter).
pub open spec fn stain_name(t: TileView, kind: StainType) -> Seq<char> {
    stained(t, kind, 0, 0).name
}

/// Every tile of `b` keeps the name it has in `a`, or takes the name a stain of `kind` gives it.
pub open spec fn names_from(a: Grid<Tile>, b: Grid<Tile>, kind: StainType) -> bool {
    forall|i: int, j: int|
        in_grid(a, i, j) ==> (#[trigger] cell(b, i, j)).name == cell(a, i, j).name
            || cell(b, i, j).name == stain_name(cell(a, i, j), kind)
}

/// `(i, j)` lies in the `d` by `d` square placed at `(x, y)`: the one with corner `(x - d/2, y - d/2)`.
pub open spec fn in_square(x: int, y: int, d: int, i: int, j: int) -> bool {
    x - d / 2 <= i < x - d / 2 + d && y - d / 2 <= j < y - d / 2 + d
}

/// A place a scatter with margin `m` may pick on a `w` by `h` grid.
pub open spec fn corner_ok(c: (int, int), m: int, w: int, h: int) -> bool {
    m <= c.0 < w - m - 1 && m <= c.1 < h - m - 1
}

/// `(i, j)` lies in the `d` by `d` square placed at one of the places `cs`.
pub open spec fn in_some_square(cs: Seq<(int, int)>, d: int, i: int, j: int) -> bool {
    exists|k: int| 0 <= k < cs.len() && in_square((#[trigger] cs[k]).0, cs[k].1, d, i, j)
}

/// A floor or a wall.
pub open spec fn takes_stain(t: TileView) -> bool {
    t.tiletype is Floor || t.tiletype is Wall
}

/// How many of the `d` by `d` squares placed at the places `cs` cover `(i, j)`.
pub open spec fn covers(cs: Seq<(int, int)>, d: int, i: int, j: int) -> nat
    decreases cs.len(),
{
    if cs.len() == 0 {
        0
    } else {
        covers(cs.drop_last(), d, i, j) + if in_square(cs.last().0, cs.last().1, d, i, j) { 1nat } else { 0nat }
    }
}

/// `new` is `old` after `n` tries of a stain of `kind`, one after the other, each leaving
/// what `stain_outcome` allows (each a certain stain when `certain`).
pub open spec fn restained(old: TileView, new: TileView, kind: StainType, certain: bool, n: nat) -> bool
    decreases n,
{
    if n == 0 {
        new == old
    } else {
        exists|mid: TileView| restained(old, mid, kind, certain, (n - 1) as nat) && #[trigger] stain_outcome(mid, new, kind, certain)
    }
}

/// What a scatter of `kind` squares of side `m` at the places `cs` leaves on `b` from `a`:
/// nothing changes outside the squares, every tile has taken one try of the stain per
/// square that covers it, every name is kept or becomes the kind's, and a corruption
/// renames every floor and wall of its squares.
pub open spec fn scattered(a: Grid<Tile>, b: Grid<Tile>, cs: Seq<(int, int)>, m: int, kind: StainType) -> bool {
    &&& forall|k: int| 0 <= k < cs.len() ==> corner_ok(#[trigger] cs[k], m, a@.len() as int, a@[0]@.len() as int)
    &&& forall|i: int, j: int| in_grid(a, i, j) && !in_some_square(cs, m, i, j) ==> #[trigger] cell(b, i, j) == cell(a, i, j)
    &&& names_from(a, b, kind)
    &&& forall|i: int, j: int|
        in_grid(a, i, j) ==> restained(cell(a, i, j), #[trigger] cell(b, i, j), kind, kind == StainType::Corruption, covers(cs, m, i, j))
    &&& kind == StainType::Corruption ==> forall|i: int, j: int|
        in_grid(a, i, j) && in_some_square(cs, m, i, j) && takes_stain(cell(a, i, j))
            ==> (#[trigger] cell(b, i, j)).name == stain_name(cell(a, i, j), kind)
}

/// One more square of stains keeps the names a scatter of its kind may give.
proof fn lemma_stain_names_step(g0: TileView, before: TileView, after: TileView, kind: StainType, certain: bool)
    requires
        before.tiletype == g0.tiletype,
        before.name == g0.name || before.name == stain_name(g0, kind),
        stain_outcome(before, after, kind, certain),
    ensures
        after.tiletype == g0.tiletype,
        after.name == g0.name || after.name == stain_name(g0, kind),
        certain && takes_stain(g0) ==> after.name == stain_name(g0, kind),
{
    if certain {
        let (a, b) = choose|a: u8, b: u8| a < first_bound(kind) && b < second_bound(kind) && after == #[trigger] stained(before, kind, a, b);
        assert(after == stained(before, kind, a, b));
    } else if after != before {
        let (a, b) = choose|a: u8, b: u8| a < first_bound(kind) && b < second_bound(kind) && after == #[trigger] stained(before, kind, a, b);
        assert(after == stained(before, kind, a, b));
    }
}

/// A scatter that places one more square keeps what `scattered` says, with that square added.
proof fn lemma_scatter_step(
    g0: Grid<Tile>,
    before: Grid<Tile>,
    after: Grid<Tile>,
    cs: Seq<(int, int)>,
    x: int,
    y: int,
    m: int,
    kind: StainType,
)
    requires
        scattered(g0, before, cs, m, kind),
        all_recolored(g0, before),
        changed_within(before, after, x - m / 2, y - m / 2, m,
            |o: TileView, n: TileView| stain_outcome(o, n, kind, kind == StainType::Corruption)),
        corner_ok((x, y), m, g0@.len() as int, g0@[0]@.len() as int),
        g0@.len() > 0,
        m >= 0,
    ensures
        scattered(g0, after, cs.push((x, y)), m, kind),
{
    let cs2 = cs.push((x, y));
    assert(cs2[cs.len() as int] == (x, y));
    assert(cs2.drop_last() =~= cs);
    assert forall|k: int| 0 <= k < cs2.len() implies corner_ok(#[trigger] cs2[k], m, g0@.len() as int, g0@[0]@.len() as int) by {
        if k < cs.len() {
            assert(cs2[k] == cs[k]);
        }
    }
    assert forall|i: int, j: int| in_grid(g0, i, j) implies {
        &&& (!in_some_square(cs2, m, i, j) ==> #[trigger] cell(after, i, j) == cell(g0, i, j))
        &&& restained(cell(g0, i, j), cell(after, i, j), kind, kind == StainType::Corruption, covers(cs2, m, i, j))
        &&& ((cell(after, i, j)).name == cell(g0, i, j).name || cell(after, i, j).name == stain_name(cell(g0, i, j), kind))
        &&& (kind == StainType::Corruption && in_some_square(cs2, m, i, j) && takes_stain(cell(g0, i, j))
            ==> cell(after, i, j).name == stain_name(cell(g0, i, j), kind))
    } by {
        assert(in_grid(before, i, j));
        assert(recolored(cell(g0, i, j), cell(before, i, j)));
        let inside = x - m / 2 <= i < x - m / 2 + m && y - m / 2 <= j < y - m / 2 + m;
        if inside {
            assert(in_square(cs2[cs.len() as int].0, cs2[cs.len() as int].1, m, i, j));
            lemma_stain_names_step(cell(g0, i, j), cell(before, i, j), cell(after, i, j), kind, kind == StainType::Corruption);
            assert(covers(cs2, m, i, j) == covers(cs, m, i, j) + 1);
            assert(restained(cell(g0, i, j), cell(before, i, j), kind, kind == StainType::Corruption, covers(cs, m, i, j)));
            assert(stain_outcome(cell(before, i, j), cell(after, i, j), kind, kind == StainType::Corruption));
            assert(restained(cell(g0, i, j), cell(after, i, j), kind, kind == StainType::Corruption, covers(cs2, m, i, j)));
        } else {
            assert(covers(cs2, m, i, j) == covers(cs, m, i, j));
            assert(cell(after, i, j) == cell(before, i, j));
            if in_some_square(cs2, m, i, j) {
                let k = choose|k: int| 0 <= k < cs2.len() && in_square((#[trigger] cs2[k]).0, cs2[k].1, m, i, j);
                assert(k < cs.len());
                assert(cs2[k] == cs[k]);
                assert(in_some_square(cs, m, i, j));
            } else {
                if in_some_square(cs, m, i, j) {
                    let k = choose|k: int| 0 <= k < cs.len() && in_square((#[trigger] cs[k]).0, cs[k].1, m, i, j);
                    assert(cs2[k] == cs[k]);
                    assert(false);
                }
            }
        }
    }
}

/// `(i, j)` lies within three tiles of an edge of `g`.
pub open spec fn near_edge(g: Grid<Tile>, i: int, j: int) -> bool {
    i < 3 || i >= g@.len() - 3 || j < 3 || j >= g@[0]@.len() - 3
}

/// Squares of side five or more, placed where a scatter places them, stay three tiles
/// away from the edges.
proof fn lemma_scatter_keeps_edges(a: Grid<Tile>, b: Grid<Tile>, cs: Seq<(int, int)>, m: int, kind: StainType)
    requires
        scattered(a, b, cs, m, kind),
        m >= 5,
        a@.len() > 0,
    ensures
        forall|i: int, j: int| in_grid(a, i, j) && near_edge(a, i, j) ==> #[trigger] cell(b, i, j) == cell(a, i, j),
{
    assert forall|i: int, j: int| in_grid(a, i, j) && near_edge(a, i, j) implies #[trigger] cell(b, i, j) == cell(a, i, j) by {
        if in_some_square(cs, m, i, j) {
            let k = choose|k: int| 0 <= k < cs.len() && in_square((#[trigger] cs[k]).0, cs[k].1, m, i, j);
            assert(corner_ok(cs[k], m, a@.len() as int, a@[0]@.len() as int));
            assert(false);
        }
    }
}

/// `new` is `old` after `nm` tries of moss, then `nf` of fungus, then `nc` certain
/// corruptions, then `nb` tries of blood.
pub open spec fn layered(old: TileView, new: TileView, nm: nat, nf: nat, nc: nat, nb: nat) -> bool {
    exists|t1: TileView, t2: TileView, t3: TileView|
        #![trigger restained(old, t1, StainType::Moss, false, nm), restained(t1, t2, StainType::Fungus, false, nf), restained(t2, t3, StainType::Corruption, true, nc)]
        restained(old, t1, StainType::Moss, false, nm) && restained(t1, t2, StainType::Fungus, false, nf)
            && restained(t2, t3, StainType::Corruption, true, nc) && restained(t3, new, StainType::Viscera, false, nb)
}

/// The patches the stain filter lays on `a` to give `b`: one or two moss squares of side
/// 15 at places `cm`, one or two fungus squares of side 7 at `cf`, one corruption square of
/// side 9 at `cc`, and none or one blood square of side 5 at `cb`, each place as far from
/// the edges as its side; nothing outside these squares changes, and every tile has
/// taken, in that order, one try of each kind per square of that kind that covers it.
pub open spec fn stain_patches(
    a: Grid<Tile>,
    b: Grid<Tile>,
    cm: Seq<(int, int)>,
    cf: Seq<(int, int)>,
    cc: Seq<(int, int)>,
    cb: Seq<(int, int)>,
) -> bool {
    let w = a@.len() as int;
    let h = a@[0]@.len() as int;
    &&& 1 <= cm.len() <= 2 && 1 <= cf.len() <= 2 && cc.len() == 1 && cb.len() <= 1
    &&& forall|k: int| 0 <= k < cm.len() ==> corner_ok(#[trigger] cm[k], 15, w, h)
    &&& forall|k: int| 0 <= k < cf.len() ==> corner_ok(#[trigger] cf[k], 7, w, h)
    &&& corner_ok(cc[0], 9, w, h)
    &&& forall|k: int| 0 <= k < cb.len() ==> corner_ok(#[trigger] cb[k], 5, w, h)
    &&& forall|i: int, j: int|
        in_grid(a, i, j) && !in_some_square(cm, 15, i, j) && !in_some_square(cf, 7, i, j)
            && !in_some_square(cc, 9, i, j) && !in_some_square(cb, 5, i, j)
            ==> #[trigger] cell(b, i, j) == cell(a, i, j)
    &&& forall|i: int, j: int|
        in_grid(a, i, j) ==> layered(cell(a, i, j), #[trigger] cell(b, i, j),
            covers(cm, 15, i, j), covers(cf, 7, i, j), covers(cc, 9, i, j), covers(cb, 5, i, j))
}

/// Stain placer.
#[derive(Copy, Clone, PartialEq, Eq, Debug, Structural)]
pub struct Stain;

impl Stain {
    /// Stain `tile` with amounts `a` and `b` (below the kind's bounds).
    pub fn stain_with(tile: &mut Tile, stain_type: StainType, a: u8, b: u8)
        requires
            a < first_bound(stain_type),
            b < second_bound(stain_type),
        ensures
            final(tile)@ == stained(old(tile)@, stain_type, a, b),
    {
        match tile.tiletype {
            Type::Floor(_) => {
                match stain_type {
                    StainType::Viscera => {
                        tile.set_name("Bloody Floor");
                        tile.fg.add_assign(RGB(12 + a, 0, 0));
                        tile.bg.add_assign(RGB(22 + b, 0, 0));
                    },
                    StainType::Moss => {
                        tile.set_name("Mossy Floor");
                        tile.fg.add_assign(RGB(0, a, 0));
                        tile.bg.add_assign(RGB(0, b, 0));
                    },
                    StainType::Fungus => {
                        tile.set_name("Fungal Bloom");
                        tile.fg.add_assign(RGB(a, 0, a));
                        tile.bg.add_assign(RGB(a, 0, b));
                    },
                    StainType::Corruption => {
                        tile.set_name("Corrupted Floor");
                        tile.fg.sub_assign(RGB(a, a, a));
                        tile.bg.sub_assign(RGB(b, b, b));
                    },
                }
            },
            Type::Wall(_) => {
                match stain_type {
                    StainType::Viscera => {
                        tile.set_name("Bloody Wall");
                        tile.fg.add_assign(RGB(a, 0, 0));
                        tile.bg.add_assign(RGB(b, 0, 0));
                    },
                    StainType::Moss => {
                        tile.set_name("Mossy Wall");
                        tile.fg.add_assign(RGB(0, a, 0));
                        tile.bg.add_assign(RGB(0, b, 0));
                    },
                    StainType::Fungus => {},
                    StainType::Corruption => {
                        tile.set_name("Corrupted Wall");
                        tile.fg.sub_assign(RGB(a, a, a));
                        tile.bg.sub_assign(RGB(b, b, b));
                    },
                }
            },
            _ => {},
        }
    }

    /// With a one in `chance` chance (certainly, when `chance` is 1), stain the tile at
    /// `(x - d/2, y - d/2)`; its two amounts are drawn in the kind's ranges.
    pub fn stain_linear(x: usize, y: usize, d: usize, grid: &mut Grid<Tile>, chance: usize, stain_type: StainType)
        requires
            chance > 0,
            x >= d / 2,
            y >= d / 2,
            in_grid(*old(grid), x - d / 2, y - d / 2),
        ensures
            changed_within(*old(grid), *final(grid), x - d / 2, y - d / 2, 1,
                |o: TileView, n: TileView| stain_outcome(o, n, stain_type, chance == 1)),
    {
        if gen_range(0, chance) == 0 {
            let tx = x - (d / 2);
            let ty = y - (d / 2);
            let (bound_a, bound_b) = match stain_type {
                StainType::Viscera => (VISCERA_FG, VISCERA_BG),
                StainType::Moss => (MOSS_FG, MOSS_BG),
                StainType::Fungus => (FUNGUS_FG, FUNGUS_BG),
                StainType::Corruption => (CORRUPTION_FG, CORRUPTION_BG),
            };
            let is_target = match grid[tx][ty].tiletype {
                Type::Floor(_) => true,
                Type::Wall(_) => match stain_type {
                    StainType::Fungus => false,
                    _ => true,
                },
                _ => false,
            };
            if is_target {
                let a = gen_range(0, bound_a as usize) as u8;
                let b = gen_range(0, bound_b as usize) as u8;
                let mut t = grid[tx][ty].clone();
                Stain::stain_with(&mut t, stain_type, a, b);
                set_cell(grid, tx, ty, t);
                assert(must_stain(cell(*old(grid), tx as int, ty as int), cell(*grid, tx as int, ty as int), stain_type));
            } else {
                assert(stained(cell(*old(grid), tx as int, ty as int), stain_type, 0, 0) == cell(*old(grid), tx as int, ty as int));
            }
        }
    }


    /// Try a stain of the given kind on each tile of the `d` by `d` square with corner
    /// `(x - d/2, y - d/2)`, each with a one in `chance` chance.
    fn stain_square(x: usize, y: usize, d: usize, grid: &mut Grid<Tile>, chance: usize, stain_type: StainType)
        requires
            chance > 0,
            square_fits(*old(grid), x as int, y as int, d as int),
        ensures
            changed_within(*old(grid), *final(grid), x - d / 2, y - d / 2, d as int,
                |o: TileView, n: TileView| stain_outcome(o, n, stain_type, chance == 1)),
    {
        let ghost g0 = *grid;
        let ghost x0 = x - d / 2;
        let ghost y0 = y - d / 2;
        let mut i: usize = 0;
        while i < d
            invariant
                chance > 0,
                square_fits(g0, x as int, y as int, d as int),
                x0 == x - d / 2 && y0 == y - d / 2,
                i <= d,
                same_shape(g0, *grid),
                forall|a: int, b: int| in_grid(g0, a, b) ==> if x0 <= a < x0 + i && y0 <= b < y0 + d {
                    stain_outcome(cell(g0, a, b), #[trigger] cell(*grid, a, b), stain_type, chance == 1)
                } else {
                    cell(*grid, a, b) == cell(g0, a, b)
                },
            decreases d - i,
        {
            let mut j: usize = 0;
            while j < d
                invariant
                    chance > 0,
                    square_fits(g0, x as int, y as int, d as int),
                    x0 == x - d / 2 && y0 == y - d / 2,
                    i < d,
                    j <= d,
                    same_shape(g0, *grid),
                    forall|a: int, b: int| in_grid(g0, a, b) ==> if (x0 <= a < x0 + i && y0 <= b < y0 + d) || (a == x0 + i && y0 <= b < y0 + j) {
                        stain_outcome(cell(g0, a, b), #[trigger] cell(*grid, a, b), stain_type, chance == 1)
                    } else {
                        cell(*grid, a, b) == cell(g0, a, b)
                    },
                decreases d - j,
            {
                let ghost before = *grid;
                assert(in_grid(g0, x0 + i, y0 + j));
                assert(before@[x0 + i]@.len() == g0@[x0 + i]@.len());
                Stain::stain_linear(x + i, y + j, d, grid, chance, stain_type);
                assert forall|a: int, b: int| in_grid(g0, a, b) implies if (x0 <= a < x0 + i && y0 <= b < y0 + d) || (a == x0 + i && y0 <= b < y0 + j + 1) {
                    stain_outcome(cell(g0, a, b), #[trigger] cell(*grid, a, b), stain_type, chance == 1)
                } else {
                    cell(*grid, a, b) == cell(g0, a, b)
                } by {
                    assert(in_grid(before, a, b));
                }
                assert forall|a: int| 0 <= a < g0@.len() implies (#[trigger] g0@[a])@.len() == grid@[a]@.len() by {
                    assert(before@[a]@.len() == g0@[a]@.len());
                }
                j = j + 1;
            }
            i = i + 1;
        }
    }

    /// Blood on the `d` by `d` square with corner `(x - d/2, y - d/2)`: each tile, one chance in two.
    pub fn add_viscera(x: usize, y: usize, d: usize, grid: &mut Grid<Tile>)
        requires
            square_fits(*old(grid), x as int, y as int, d as int),
        ensures
            changed_within(*old(grid), *final(grid), x - d / 2, y - d / 2, d as int,
                |o: TileView, n: TileView| stain_outcome(o, n, StainType::Viscera, false)),
    {
        Stain::stain_square(x, y, d, grid, 2, StainType::Viscera);
    }

    /// Moss on the `d` by `d` square with corner `(x - d/2, y - d/2)`: each tile, one chance in two.
    pub fn add_moss(x: usize, y: usize, d: usize, grid: &mut Grid<Tile>)
        requires
            square_fits(*old(grid), x as int, y as int, d as int),
        ensures
            changed_within(*old(grid), *final(grid), x - d / 2, y - d / 2, d as int,
                |o: TileView, n: TileView| stain_outcome(o, n, StainType::Moss, false)),
    {
        Stain::stain_square(x, y, d, grid, 2, StainType::Moss);
    }

    /// Fungus on the `d` by `d` square with corner `(x - d/2, y - d/2)`: each tile, one chance in three.
    pub fn add_fungus(x: usize, y: usize, d: usize, grid: &mut Grid<Tile>)
        requires
            square_fits(*old(grid), x as int, y as int, d as int),
        ensures
            changed_within(*old(grid), *final(grid), x - d / 2, y - d / 2, d as int,
                |o: TileView, n: TileView| stain_outcome(o, n, StainType::Fungus, false)),
    {
        Stain::stain_square(x, y, d, grid, 3, StainType::Fungus);
    }

    /// Corruption, certainly, on every tile of the `d` by `d` square with corner `(x - d/2, y - d/2)`.
    pub fn add_corruption(x: usize, y: usize, d: usize, grid: &mut Grid<Tile>)
        requires
            square_fits(*old(grid), x as int, y as int, d as int),
        ensures
            changed_within(*old(grid), *final(grid), x - d / 2, y - d / 2, d as int,
                |o: TileView, n: TileView| stain_outcome(o, n, StainType::Corruption, true)),
    {
        Stain::stain_square(x, y, d, grid, 1, StainType::Corruption);
    }


    /// Place `count` squares of side `margin` at random corners, staying `margin` tiles
    /// away from the edges.
    fn scatter(grid: &mut Grid<Tile>, count: usize, margin: usize, stain_type: StainType)
        requires
            rect_grid(*old(grid)),
            1 <= margin <= 15,
            old(grid)@.len() > 2 * margin + 1,
            old(grid)@[0]@.len() > 2 * margin + 1,
        ensures
            rect_grid(*final(grid)),
            all_recolored(*old(grid), *final(grid)),
            exists|cs: Seq<(int, int)>|
                cs.len() == count && #[trigger] scattered(*old(grid), *final(grid), cs, margin as int, stain_type),
    {
        let ghost g0 = *grid;
        let ghost mut cs: Seq<(int, int)> = Seq::empty();
        let mut k: usize = 0;
        while k < count
            invariant
                rect_grid(g0),
                1 <= margin <= 15,
                g0@.len() > 2 * margin + 1,
                g0@[0]@.len() > 2 * margin + 1,
                rect_grid(*grid),
                all_recolored(g0, *grid),
                k <= count,
                cs.len() == k,
                scattered(g0, *grid, cs, margin as int, stain_type),
            decreases count - k,
        {
            assert(grid@[0]@.len() == g0@[0]@.len());
            let x = gen_range(margin, grid_width(grid) - margin - 1);
            let y = gen_range(margin, grid_height(grid) - margin - 1);
            let ghost before = *grid;
            match stain_type {
                StainType::Viscera => Stain::add_viscera(x, y, margin, grid),
                StainType::Moss => Stain::add_moss(x, y, margin, grid),
                StainType::Fungus => Stain::add_fungus(x, y, margin, grid),
                StainType::Corruption => Stain::add_corruption(x, y, margin, grid),
            }
            proof {
                lemma_scatter_step(g0, before, *grid, cs, x as int, y as int, margin as int, stain_type);
                cs = cs.push((x as int, y as int));
                lemma_square_recolors(before, *grid, x - margin / 2, y - margin / 2, margin as int, stain_type,
                    stain_type == StainType::Corruption);
                lemma_all_recolored_trans(g0, before, *grid);
                assert forall|i: int| 0 <= i < grid@.len() implies (#[trigger] grid@[i])@.len() == grid@[0]@.len() by {
                    assert(grid@[i]@.len() == before@[i]@.len());
                    assert(grid@[0]@.len() == before@[0]@.len());
                }
            }
            k = k + 1;
        }
        assert(scattered(g0, *grid, cs, margin as int, stain_type));
    }

    /// Return a new `Stain`.
    pub fn new() -> (s: Stain)
        ensures
            s == Stain,
    {
        Stain {}
    }
}

impl Filter for Stain {
    type Output = Tile;

    open spec fn fits(&self, grid: Grid<Tile>) -> bool {
        &&& rect_grid(grid)
        &&& grid@.len() >= 32
        &&& grid@[0]@.len() >= 32
    }

    /// Spread moss (one or two patches), fungus (one or two), corruption (one) and blood
    /// (none or one) over the grid.
    ///
    /// Nothing within three tiles of an edge changes; nothing outside the patches changes,
    /// and each tile takes one try of each kind per covering patch, in the order moss,
    /// fungus, corruption, blood (see `stain_patches`); every floor and wall of the
    /// corruption's square ends up corrupted (or, where blood fell on it, bloody).
    fn apply(&mut self, grid: &mut Grid<Tile>)
        ensures
            all_recolored(*old(grid), *final(grid)),
            forall|i: int, j: int|
                in_grid(*old(grid), i, j) && near_edge(*old(grid), i, j) ==> #[trigger] cell(*final(grid), i, j) == cell(*old(grid), i, j),
            exists|c: (int, int)| {
                &&& corner_ok(c, 9, old(grid)@.len() as int, old(grid)@[0]@.len() as int)
                &&& forall|i: int, j: int|
                    in_grid(*old(grid), i, j) && #[trigger] in_square(c.0, c.1, 9, i, j) && takes_stain(cell(*old(grid), i, j))
                        ==> cell(*final(grid), i, j).name == stain_name(cell(*old(grid), i, j), StainType::Corruption)
                        || cell(*final(grid), i, j).name == stain_name(cell(*old(grid), i, j), StainType::Viscera)
            },
            exists|cm: Seq<(int, int)>, cf: Seq<(int, int)>, cc: Seq<(int, int)>, cb: Seq<(int, int)>|
                #[trigger] stain_patches(*old(grid), *final(grid), cm, cf, cc, cb),
    {
        let ghost g0 = *grid;
        let moss = gen_range(1, 3);
        Stain::scatter(grid, moss, 15, StainType::Moss);
        let ghost g1 = *grid;
        let fungus = gen_range(1, 3);
        Stain::scatter(grid, fungus, 7, StainType::Fungus);
        proof {
            lemma_all_recolored_trans(g0, g1, *grid);
        }
        let ghost g2 = *grid;
        Stain::scatter(grid, 1, 9, StainType::Corruption);
        proof {
            lemma_all_recolored_trans(g0, g2, *grid);
        }
        let ghost g3 = *grid;
        let blood = gen_range(0, 2);
        Stain::scatter(grid, blood, VISCERA_DIAMETER, StainType::Viscera);
        proof {
            lemma_all_recolored_trans(g0, g3, *grid);
            let cs0 = choose|cs: Seq<(int, int)>| cs.len() == moss && #[trigger] scattered(g0, g1, cs, 15, StainType::Moss);
            let cs1 = choose|cs: Seq<(int, int)>| cs.len() == fungus && #[trigger] scattered(g1, g2, cs, 7, StainType::Fungus);
            let cs2 = choose|cs: Seq<(int, int)>| cs.len() == 1 && #[trigger] scattered(g2, g3, cs, 9, StainType::Corruption);
            let cs3 = choose|cs: Seq<(int, int)>| cs.len() == blood && #[trigger] scattered(g3, *grid, cs, 5, StainType::Viscera);
            lemma_scatter_keeps_edges(g0, g1, cs0, 15, StainType::Moss);
            lemma_scatter_keeps_edges(g1, g2, cs1, 7, StainType::Fungus);
            lemma_scatter_keeps_edges(g2, g3, cs2, 9, StainType::Corruption);
            lemma_scatter_keeps_edges(g3, *grid, cs3, 5, StainType::Viscera);
            assert forall|i: int, j: int|
                in_grid(g0, i, j) && near_edge(g0, i, j) implies #[trigger] cell(*grid, i, j) == cell(g0, i, j) by {
                assert(in_grid(g1, i, j) && near_edge(g1, i, j));
                assert(in_grid(g2, i, j) && near_edge(g2, i, j));
                assert(in_grid(g3, i, j) && near_edge(g3, i, j));
            }
            let c = cs2[0];
            assert(corner_ok(c, 9, g0@.len() as int, g0@[0]@.len() as int));
            assert forall|i: int, j: int|
                in_grid(g0, i, j) && #[trigger] in_square(c.0, c.1, 9, i, j) && takes_stain(cell(g0, i, j))
                    implies cell(*grid, i, j).name == stain_name(cell(g0, i, j), StainType::Corruption)
                    || cell(*grid, i, j).name == stain_name(cell(g0, i, j), StainType::Viscera) by {
                assert(in_grid(g2, i, j) && in_grid(g3, i, j));
                assert(recolored(cell(g0, i, j), cell(g2, i, j)));
                assert(in_some_square(cs2, 9, i, j));
                assert(cell(g3, i, j).name == stain_name(cell(g2, i, j), StainType::Corruption));
                assert(recolored(cell(g0, i, j), cell(g3, i, j)));
            }
            assert forall|i: int, j: int|
                in_grid(g0, i, j) && !in_some_square(cs0, 15, i, j) && !in_some_square(cs1, 7, i, j)
                    && !in_some_square(cs2, 9, i, j) && !in_some_square(cs3, 5, i, j)
                    implies #[trigger] cell(*grid, i, j) == cell(g0, i, j) by {
                assert(in_grid(g1, i, j) && in_grid(g2, i, j) && in_grid(g3, i, j));
            }
            assert forall|i: int, j: int| in_grid(g0, i, j) implies layered(cell(g0, i, j), #[trigger] cell(*grid, i, j),
                covers(cs0, 15, i, j), covers(cs1, 7, i, j), covers(cs2, 9, i, j), covers(cs3, 5, i, j)) by {
                assert(in_grid(g1, i, j) && in_grid(g2, i, j) && in_grid(g3, i, j));
                assert(restained(cell(g0, i, j), cell(g1, i, j), StainType::Moss, false, covers(cs0, 15, i, j)));
                assert(restained(cell(g1, i, j), cell(g2, i, j), StainType::Fungus, false, covers(cs1, 7, i, j)));
                assert(restained(cell(g2, i, j), cell(g3, i, j), StainType::Corruption, true, covers(cs2, 9, i, j)));
                assert(restained(cell(g3, i, j), cell(*grid, i, j), StainType::Viscera, false, covers(cs3, 5, i, j)));
            }
            assert(stain_patches(g0, *grid, cs0, cs1, cs2, cs3));
        }
    }
}

} // verus!
