//! Drunkard's walk: a wanderer that replaces the tiles it steps on.

use super::{get_d4, in_walk_zone, place_coord, place_inbounds, unwrap_pos};
use crate::engine::world::dungeon::map::grid::{cell, in_grid, index, index_set, is_grid, same_shape};
use crate::engine::world::dungeon::map::tile::TileView;
use crate::engine::world::dungeon::map::{Grid, Pos, Tile};
use vstd::prelude::*;

verus! {

/// Each tile of `b` is the tile of `a`, or — inside the walk zone, and only where `a`
/// held `find` (when given) — the `replace` tile.
pub open spec fn walked(a: Grid<Tile>, b: Grid<Tile>, find: Option<TileView>, replace: TileView) -> bool {
    &&& same_shape(a, b)
    &&& forall|x: int, y: int|
        in_grid(a, x, y) ==> {
            ||| #[trigger] cell(b, x, y) == cell(a, x, y)
            ||| {
                &&& in_walk_zone(a@.len() as int, x)
                &&& in_walk_zone(a@[0]@.len() as int, y)
                &&& cell(b, x, y) == replace
                &&& find matches Some(f) ==> cell(a, x, y) == f
            }
        }
}

/// The view of an optional tile.
pub open spec fn opt_view(t: Option<Tile>) -> Option<TileView> {
    match t {
        Some(t) => Some(t@),
        None => None,
    }
}

/// One step: die 1 moves right, 2 left, 3 down, 4 up.
pub open spec fn step(p: Pos, die: usize) -> Pos {
    if die == 1 {
        Pos { x: (p.x + 1) as isize, ..p }
    } else if die == 2 {
        Pos { x: (p.x - 1) as isize, ..p }
    } else if die == 3 {
        Pos { y: (p.y + 1) as isize, ..p }
    } else {
        Pos { y: (p.y - 1) as isize, ..p }
    }
}

/// The positions the walker stands on after each step, each put back inside the border of a
/// `w` by `h` grid.
pub open spec fn walk_path(start: Pos, dice: Seq<usize>, w: int, h: int) -> Seq<Pos>
    decreases dice.len(),
{
    if dice.len() == 0 {
        Seq::empty()
    } else {
        let prev = walk_path(start, dice.drop_last(), w, h);
        let from = if prev.len() == 0 { start } else { prev.last() };
        let moved = step(from, dice.last());
        prev.push(Pos { x: place_coord(moved.x as int, w) as isize, y: place_coord(moved.y as int, h) as isize })
    }
}

/// The walker stood on `(x, y)`.
pub open spec fn visited(path: Seq<Pos>, x: int, y: int) -> bool {
    exists|k: int| 0 <= k < path.len() && (#[trigger] path[k]).x == x && path[k].y == y
}

/// `b` is `a` after a walk along `path`: every visited tile that held `find` (any tile,
/// when `find` is not given) is now `replace`; every other tile is unchanged.
pub open spec fn walked_along(a: Grid<Tile>, b: Grid<Tile>, path: Seq<Pos>, find: Option<TileView>, replace: TileView) -> bool {
    &&& same_shape(a, b)
    &&& forall|x: int, y: int|
        in_grid(a, x, y) ==> #[trigger] cell(b, x, y) == if visited(path, x, y) && (find matches Some(f) ==> cell(a, x, y) == f) {
            replace
        } else {
            cell(a, x, y)
        }
}

/// The dice follow the rerolls: a step keeps the previous step's direction unless its
/// reroll is set (the first step's direction is rolled either way).
pub open spec fn dice_follow(dice: Seq<usize>, rerolls: Seq<bool>) -> bool {
    &&& dice.len() == rerolls.len()
    &&& forall|k: int| 0 <= k < dice.len() ==> 1 <= #[trigger] dice[k] <= 4
    &&& forall|k: int| 1 <= k < dice.len() && !rerolls[k] ==> #[trigger] dice[k] == dice[k - 1]
}

/// The grid fits a walk: a rectangle at least 2 by 2 whose sides fit in an `isize`.
pub open spec fn walk_grid(g: Grid<Tile>) -> bool {
    &&& 2 <= g@.len() <= isize::MAX
    &&& 2 <= g@[0]@.len() <= isize::MAX
    &&& is_grid(g, g@.len() as int, g@[0]@.len() as int)
}

/// Every position on a walk's path lies in the walk zone.
proof fn lemma_path_in_zone(start: Pos, dice: Seq<usize>, w: int, h: int, k: int)
    requires
        2 <= w && 2 <= h,
        0 <= k < walk_path(start, dice, w, h).len(),
    ensures
        walk_path(start, dice, w, h).len() == dice.len(),
        in_walk_zone(w, walk_path(start, dice, w, h)[k].x as int),
        in_walk_zone(h, walk_path(start, dice, w, h)[k].y as int),
    decreases dice.len(),
{
    if dice.len() > 0 {
        let prev = walk_path(start, dice.drop_last(), w, h);
        if k < prev.len() {
            lemma_path_in_zone(start, dice.drop_last(), w, h, k);
        } else {
            if prev.len() > 0 {
                lemma_path_in_zone(start, dice.drop_last(), w, h, 0);
            }
        }
    }
}

/// A walk only replaces `find` tiles (any tile, when `find` is not given) by `replace`, and
/// only inside the border.
pub proof fn lemma_walk_stays_inside(
    a: Grid<Tile>,
    b: Grid<Tile>,
    start: Pos,
    dice: Seq<usize>,
    find: Option<TileView>,
    replace: TileView,
)
    requires
        walk_grid(a),
        walked_along(a, b, walk_path(start, dice, a@.len() as int, a@[0]@.len() as int), find, replace),
    ensures
        walked(a, b, find, replace),
{
    let w = a@.len() as int;
    let h = a@[0]@.len() as int;
    let path = walk_path(start, dice, w, h);
    assert forall|x: int, y: int| in_grid(a, x, y) implies {
        ||| #[trigger] cell(b, x, y) == cell(a, x, y)
        ||| {
            &&& in_walk_zone(w, x)
            &&& in_walk_zone(h, y)
            &&& cell(b, x, y) == replace
            &&& find matches Some(f) ==> cell(a, x, y) == f
        }
    } by {
        if visited(path, x, y) && (find matches Some(f) ==> cell(a, x, y) == f) {
            let k = choose|k: int| 0 <= k < path.len() && (#[trigger] path[k]).x == x && path[k].y == y;
            lemma_path_in_zone(start, dice, w, h, k);
        }
    }
}

/// Walk from `start`, one step per die (1 right, 2 left, 3 down, 4 up). After each step the
/// walker is put back inside the border, and the tile under it becomes `replace` — when
/// `find` is given, only if it equals `find`.
pub fn walk_dice(grid: &mut Grid<Tile>, start: Pos, find: Option<Tile>, replace: Tile, dice: &Vec<usize>)
    requires
        walk_grid(*old(grid)),
        isize::MIN < start.x < isize::MAX,
        isize::MIN < start.y < isize::MAX,
        forall|k: int| 0 <= k < dice@.len() ==> 1 <= #[trigger] dice@[k] <= 4,
    ensures
        walked_along(
            *old(grid),
            *final(grid),
            walk_path(start, dice@, old(grid)@.len() as int, old(grid)@[0]@.len() as int),
            opt_view(find),
            replace@,
        ),
{
    let ghost g0 = *grid;
    let ghost w = g0@.len() as int;
    let ghost h = g0@[0]@.len() as int;
    let mut starting_pos = start;
    let mut i: usize = 0;
    while i < dice.len()
        invariant
            w == g0@.len() && h == g0@[0]@.len(),
            walk_grid(g0),
            forall|k: int| 0 <= k < dice@.len() ==> 1 <= #[trigger] dice@[k] <= 4,
            i <= dice@.len(),
            walk_path(start, dice@.take(i as int), w, h).len() == i,
            starting_pos == if i == 0 { start } else { walk_path(start, dice@.take(i as int), w, h).last() },
            isize::MIN < starting_pos.x < isize::MAX,
            isize::MIN < starting_pos.y < isize::MAX,
            walked_along(g0, *grid, walk_path(start, dice@.take(i as int), w, h), opt_view(find), replace@),
        decreases dice@.len() - i,
    {
        let ghost prev_path = walk_path(start, dice@.take(i as int), w, h);
        let ghost from = starting_pos;
        let dice_now = dice[i];
        if dice_now == 1 {
            starting_pos.x = starting_pos.x + 1;
        } else if dice_now == 2 {
            starting_pos.x = starting_pos.x - 1;
        } else if dice_now == 3 {
            starting_pos.y = starting_pos.y + 1;
        } else {
            starting_pos.y = starting_pos.y - 1;
        }
        assert(starting_pos == step(from, dice_now));
        assert(grid@.len() == w);
        assert(grid@[0]@.len() == g0@[0]@.len());
        place_inbounds(grid, &mut starting_pos);
        let ghost path = walk_path(start, dice@.take(i + 1), w, h);
        assert(dice@.take(i + 1).drop_last() =~= dice@.take(i as int));
        assert(path == prev_path.push(starting_pos));
        let ghost sx = starting_pos.x as int;
        let ghost sy = starting_pos.y as int;
        assert(in_grid(g0, sx, sy));
        assert(in_grid(*grid, sx, sy)) by {
            assert(grid@[sx]@.len() == g0@[sx]@.len());
        }
        let ghost before = *grid;
        match &find {
            Some(f) => {
                if *index(grid, starting_pos) == *f {
                    index_set(grid, starting_pos, replace.clone());
                }
            },
            None => {
                index_set(grid, starting_pos, replace.clone());
            },
        }
        assert forall|x: int, y: int| in_grid(g0, x, y) implies #[trigger] cell(*grid, x, y) == if visited(path, x, y) && (opt_view(find) matches Some(f) ==> cell(g0, x, y) == f) {
            replace@
        } else {
            cell(g0, x, y)
        } by {
            assert(in_grid(before, x, y));
            assert(path[i as int] == starting_pos);
            if visited(prev_path, x, y) {
                let k = choose|k: int| 0 <= k < prev_path.len() && (#[trigger] prev_path[k]).x == x && prev_path[k].y == y;
                assert(path[k] == prev_path[k]);
            }
            if visited(path, x, y) && !(x == sx && y == sy) {
                let k = choose|k: int| 0 <= k < path.len() && (#[trigger] path[k]).x == x && path[k].y == y;
                assert(prev_path[k] == path[k]);
            }
        }
        assert forall|x: int| 0 <= x < g0@.len() implies (#[trigger] g0@[x])@.len() == grid@[x]@.len() by {
            assert(before@[x]@.len() == g0@[x]@.len());
        }
        i = i + 1;
    }
    assert(dice@.take(dice@.len() as int) =~= dice@);
}

/// Walk for `rerolls.len()` steps from `pos` (or from a random position away from the
/// edges): the first direction is a d4 roll, and each step takes a fresh roll when its
/// `rerolls` entry is set, else the previous direction (see `walk_dice`).
pub fn walk(grid: &mut Grid<Tile>, pos: Option<Pos>, find: Option<Tile>, replace: Tile, rerolls: &Vec<bool>)
    requires
        walk_grid(*old(grid)),
        pos is None ==> old(grid)@.len() > 3 && old(grid)@[0]@.len() > 3,
        pos matches Some(p) ==> isize::MIN < p.x < isize::MAX && isize::MIN < p.y < isize::MAX,
    ensures
        exists|start: Pos, dice: Seq<usize>| {
            &&& pos matches Some(p) ==> start == p
            &&& pos is None ==> 1 <= start.x < old(grid)@.len() - 2 && 1 <= start.y < old(grid)@[0]@.len() - 2
            &&& dice_follow(dice, rerolls@)
            &&& #[trigger] walked_along(*old(grid), *final(grid),
                    walk_path(start, dice, old(grid)@.len() as int, old(grid)@[0]@.len() as int),
                    opt_view(find), replace@)
        },
        walked(*old(grid), *final(grid), opt_view(find), replace@),
{
    let starting_pos = unwrap_pos(grid, pos);
    let mut old_dice = get_d4();
    let mut dice: Vec<usize> = Vec::new();
    let mut i: usize = 0;
    while i < rerolls.len()
        invariant
            i <= rerolls@.len(),
            dice@.len() == i,
            1 <= old_dice <= 4,
            i > 0 ==> old_dice == dice@[i - 1],
            dice_follow(dice@, rerolls@.take(i as int)),
        decreases rerolls@.len() - i,
    {
        let d: usize;
        if !rerolls[i] {
            d = old_dice;
        } else {
            d = get_d4();
            old_dice = d;
        }
        dice.push(d);
        assert(dice_follow(dice@, rerolls@.take(i + 1))) by {
            assert forall|k: int| 1 <= k < dice@.len() && !rerolls@.take(i + 1)[k] implies #[trigger] dice@[k] == dice@[k - 1] by {
                if k < i {
                    assert(rerolls@.take(i + 1)[k] == rerolls@.take(i as int)[k]);
                }
            }
        }
        i = i + 1;
    }
    assert(rerolls@.take(rerolls@.len() as int) =~= rerolls@);
    let ghost g0 = *grid;
    walk_dice(grid, starting_pos, find, replace, &dice);
    proof {
        lemma_walk_stays_inside(g0, *grid, starting_pos, dice@, opt_view(find), replace@);
    }
}

} // verus!
