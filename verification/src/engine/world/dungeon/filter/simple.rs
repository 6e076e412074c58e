//! The simple dungeon filter: small rooms connected by corridors.

use super::Filter;
use crate::engine::renderer::RGB;
use crate::engine::world::dungeon::map::construct::rect::{in_rect, rect_center};
use crate::engine::world::dungeon::map::construct::{Corr, Rect};
use crate::engine::world::dungeon::map::grid::{cell, in_grid, index_set, is_grid, same_shape};
use crate::engine::world::dungeon::map::tile::{new_tile_view, Floor, TileView, Type};
use crate::engine::world::dungeon::map::{Grid, Pos, Tile};
use crate::random::gen_range;
use vstd::prelude::*;

verus! {

/// `v` lies after `a` and up to `b`, walking from `a` toward `b`.
pub open spec fn between(a: int, b: int, v: int) -> bool {
    (a < v && v <= b) || (b <= v && v < a)
}

/// `(x, y)` is carved by a corridor: first along the x-axis from the start's row to the
/// end's column, then along the y-axis to the end. The start itself is not carved.
pub open spec fn in_corr(c: Corr, x: int, y: int) -> bool {
    ||| (y == c.start.y && between(c.start.x as int, c.end.x as int, x))
    ||| (x == c.end.x && between(c.start.y as int, c.end.y as int, y))
}

/// The floor that the simple filter carves.
pub open spec fn simple_floor() -> TileView {
    new_tile_view("Floor"@, ' ', RGB(7, 7, 7), RGB(0, 0, 0), Type::Floor(Floor::Normal))
}

/// A room that the simple filter accepts on a `w` by `h` map.
pub open spec fn room_ok(r: Rect, w: int, h: int) -> bool {
    &&& 1 <= r.x && 1 <= r.y
    &&& 5 <= r.w < 20 && 5 <= r.h < 20
    &&& r.x + r.w < w && r.y + r.h < h
}

/// The room a draw `(x, y, l, w)` describes.
pub open spec fn draw_rect(d: (usize, usize, usize, usize)) -> Rect {
    Rect { x: d.0 as isize, y: d.1 as isize, h: d.2 as isize, w: d.3 as isize }
}

/// A draw within the ranges room placement draws from on a `w` by `h` map.
pub open spec fn draw_ok(d: (usize, usize, usize, usize), w: int, h: int) -> bool {
    &&& 1 <= d.0 < w - 2
    &&& 1 <= d.1 < h - 2
    &&& 5 <= d.2 < 20
    &&& 5 <= d.3 < 20
}

/// All draws lie within their ranges.
pub open spec fn draws_ok(draws: Seq<(usize, usize, usize, usize)>, w: int, h: int) -> bool {
    forall|k: int| 0 <= k < draws.len() ==> draw_ok(#[trigger] draws[k], w, h)
}

/// The rooms of the draws that fit on a `w` by `h` map (far edges inside it), in order.
pub open spec fn accepted_rooms(draws: Seq<(usize, usize, usize, usize)>, w: int, h: int) -> Seq<Rect>
    decreases draws.len(),
{
    if draws.len() == 0 {
        Seq::empty()
    } else {
        let prev = accepted_rooms(draws.drop_last(), w, h);
        let d = draws.last();
        if d.3 + d.0 < w && d.2 + d.1 < h {
            prev.push(draw_rect(d))
        } else {
            prev
        }
    }
}

/// `(x, y)` lies in one of the rooms.
pub open spec fn in_any_room(rooms: Seq<Rect>, x: int, y: int) -> bool {
    exists|i: int| 0 <= i < rooms.len() && in_rect(#[trigger] rooms[i], x, y)
}

/// The corridor from the center of room `i` to the center of the next room, the last
/// room's next being the first.
pub open spec fn room_corr(rooms: Seq<Rect>, i: int) -> Corr {
    Corr { start: rect_center(rooms[i]), end: rect_center(rooms[(i + 1) % rooms.len() as int]) }
}

/// `(x, y)` lies on the corridor between some room and the next one, around the cycle.
pub open spec fn in_any_corr(rooms: Seq<Rect>, x: int, y: int) -> bool {
    exists|i: int| 0 <= i < rooms.len() && in_corr(#[trigger] room_corr(rooms, i), x, y)
}

/// Every tile a corridor carves lies in `g`.
pub open spec fn corr_fits(c: Corr, g: Grid<Tile>) -> bool {
    forall|x: int, y: int| #[trigger] in_corr(c, x, y) ==> in_grid(g, x, y)
}

/// `b` is `a` with floor carved exactly where `carved` holds.
pub open spec fn carved(a: Grid<Tile>, b: Grid<Tile>, floor: TileView, carved: spec_fn(int, int) -> bool) -> bool {
    &&& same_shape(a, b)
    &&& forall|x: int, y: int|
        in_grid(a, x, y) ==> #[trigger] cell(b, x, y) == if carved(x, y) {
            floor
        } else {
            cell(a, x, y)
        }
}

/// The rectangle lies inside the grid (and its far edges fit in an `isize`).
pub open spec fn rect_fits(r: Rect, g: Grid<Tile>) -> bool {
    &&& 0 <= r.x && r.x + r.w <= g@.len() && r.x + r.w <= isize::MAX
    &&& 0 <= r.y && r.y + r.h <= isize::MAX
    &&& forall|x: int| r.x <= x < r.x + r.w ==> r.y + r.h <= (#[trigger] g@[x])@.len()
}

/// Simple dungeon builder: a number of small rooms (respective to map size), connected by corridors.
#[derive(Debug)]
pub struct Simple {
    pub w: usize,
    pub h: usize,
    rooms: Vec<Rect>,
    floor: Tile,
}

impl Simple {
    /// The rooms placed by the last run.
    pub closed spec fn rooms(&self) -> Seq<Rect> {
        self.rooms@
    }

    /// The filter's own state is as `new` made it, and every room fits a `w` by `h` map.
    pub closed spec fn wf(&self) -> bool {
        &&& self.floor@ == simple_floor()
        &&& forall|i: int| 0 <= i < self.rooms@.len() ==> room_ok(#[trigger] self.rooms@[i], self.w as int, self.h as int)
    }

    /// The map width the filter was made for.
    pub closed spec fn width(&self) -> usize {
        self.w
    }

    /// The map height the filter was made for.
    pub closed spec fn height(&self) -> usize {
        self.h
    }

    /// Room placement draws coordinates in `[1, w - 2)` and `[1, h - 2)`: it needs a map of
    /// at least 4 by 4 whenever it draws at all.
    pub open spec fn size_ok(&self) -> bool {
        &&& self.width() + 20 < isize::MAX && self.height() + 20 < isize::MAX
        &&& (self.width() + self.height()) / 10 == 0 || (self.width() > 3 && self.height() > 3)
    }

    /// Place the rooms drawn as `(x, y, l, w)` (corner, length along y, width along x):
    /// a draw becomes a room when `x + w < width` and `y + l < height`, and each room is
    /// built on the grid. The filter's rooms are the accepted draws, in order.
    pub fn place_rooms(&mut self, grid: &mut Grid<Tile>, draws: &Vec<(usize, usize, usize, usize)>)
        requires
            old(self).wf(),
            old(self).size_ok(),
            is_grid(*old(grid), old(self).width() as int, old(self).height() as int),
            draws_ok(draws@, old(self).width() as int, old(self).height() as int),
        ensures
            final(self).wf(),
            final(self).width() == old(self).width() && final(self).height() == old(self).height(),
            final(self).rooms() == accepted_rooms(draws@, old(self).width() as int, old(self).height() as int),
            carved(*old(grid), *final(grid), simple_floor(), |x: int, y: int| in_any_room(final(self).rooms(), x, y)),
    {
        self.rooms = Vec::<Rect>::new();
        let ghost g0 = *grid;
        let ghost sw = self.w as int;
        let ghost sh = self.h as int;
        let mut k: usize = 0;
        while k < draws.len()
            invariant
                self.wf(),
                self.size_ok(),
                self.w == old(self).w && self.h == old(self).h,
                sw == self.w && sh == self.h,
                draws_ok(draws@, sw, sh),
                k <= draws@.len(),
                self.rooms@ == accepted_rooms(draws@.take(k as int), sw, sh),
                g0 == *old(grid),
                is_grid(g0, sw, sh),
                carved(g0, *grid, simple_floor(), |x: int, y: int| in_any_room(self.rooms@, x, y)),
            decreases draws@.len() - k,
        {
            let d = draws[k];
            assert(draw_ok(draws@[k as int], sw, sh));
            let x = d.0 as isize;
            let y = d.1 as isize;
            let l = d.2 as isize;
            let w = d.3 as isize;
            assert(draws@.take(k + 1).drop_last() =~= draws@.take(k as int));
            assert(draws@.take(k + 1).last() == d);
            if w + x >= self.w as isize || l + y >= self.h as isize {
            } else {
                let r = Rect::new(x, y, l, w);
                assert(r == draw_rect(d));
                let ghost before = *grid;
                let ghost rooms0 = self.rooms@;
                assert forall|i: int| r.x <= i < r.x + r.w implies r.y + r.h <= (#[trigger] grid@[i])@.len() by {
                    assert(grid@[i]@.len() == g0@[i]@.len());
                }
                self.build_rect(&r, grid);
                self.rooms.push(r);
                assert forall|x: int, y: int| in_grid(g0, x, y) implies #[trigger] cell(*grid, x, y) == if in_any_room(self.rooms@, x, y) {
                    simple_floor()
                } else {
                    cell(g0, x, y)
                } by {
                    assert(cell(before, x, y) == if in_any_room(rooms0, x, y) { simple_floor() } else { cell(g0, x, y) });
                    if in_any_room(rooms0, x, y) {
                        let i = choose|i: int| 0 <= i < rooms0.len() && in_rect(#[trigger] rooms0[i], x, y);
                        assert(self.rooms@[i] == rooms0[i]);
                    }
                    if in_rect(r, x, y) {
                        assert(self.rooms@[rooms0.len() as int] == r);
                    }
                    if in_any_room(self.rooms@, x, y) && !in_rect(r, x, y) {
                        let i = choose|i: int| 0 <= i < self.rooms@.len() && in_rect(#[trigger] self.rooms@[i], x, y);
                        assert(rooms0[i] == self.rooms@[i]);
                    }
                }
            }
            k = k + 1;
        }
        assert(draws@.take(draws@.len() as int) =~= draws@);
    }

    /// Draw `(width + height) / 10` rooms at random — corner x in `[1, width - 2)`, y in
    /// `[1, height - 2)`, length and width in `[5, 20)` — and place them (see `place_rooms`).
    fn add_rooms(&mut self, grid: &mut Grid<Tile>)
        requires
            old(self).wf(),
            old(self).size_ok(),
            is_grid(*old(grid), old(self).w as int, old(self).h as int),
        ensures
            final(self).wf(),
            final(self).w == old(self).w && final(self).h == old(self).h,
            exists|draws: Seq<(usize, usize, usize, usize)>| {
                &&& draws.len() == (old(self).w + old(self).h) / 10
                &&& draws_ok(draws, old(self).w as int, old(self).h as int)
                &&& #[trigger] accepted_rooms(draws, old(self).w as int, old(self).h as int) == final(self).rooms()
            },
            carved(*old(grid), *final(grid), simple_floor(), |x: int, y: int| in_any_room(final(self).rooms(), x, y)),
    {
        let n = (self.w + self.h) / 10;
        let mut draws: Vec<(usize, usize, usize, usize)> = Vec::new();
        let mut k: usize = 0;
        while k < n
            invariant
                self.size_ok(),
                n == (self.w + self.h) / 10,
                k <= n,
                draws@.len() == k,
                draws_ok(draws@, self.w as int, self.h as int),
            decreases n - k,
        {
            let x = gen_range(1, self.w - 2);
            let y = gen_range(1, self.h - 2);
            let l = gen_range(5, 20);
            let w = gen_range(5, 20);
            draws.push((x, y, l, w));
            assert(draw_ok(draws@[k as int], self.w as int, self.h as int));
            k = k + 1;
        }
        self.place_rooms(grid, &draws);
    }

    /// Connect each room to the next one by a corridor between their centers, and the
    /// last room back to the first, closing the rooms into a cycle.
    fn connect_rooms(&mut self, grid: &mut Grid<Tile>)
        requires
            old(self).wf(),
            old(self).rooms@.len() >= 1,
            old(self).size_ok(),
            is_grid(*old(grid), old(self).w as int, old(self).h as int),
        ensures
            *final(self) == *old(self),
            carved(*old(grid), *final(grid), simple_floor(), |x: int, y: int| in_any_corr(old(self).rooms@, x, y)),
    {
        let ghost g0 = *grid;
        let ghost rooms = self.rooms@;
        let n = self.rooms.len();
        let mut r: usize = 0;
        while r < n
            invariant
                self.wf(),
                self.size_ok(),
                *self == *old(self),
                rooms == self.rooms@,
                n == rooms.len(),
                n >= 1,
                r <= n,
                is_grid(g0, self.w as int, self.h as int),
                carved(g0, *grid, simple_floor(), |x: int, y: int|
                    exists|i: int| 0 <= i < r && in_corr(#[trigger] room_corr(rooms, i), x, y)),
            decreases n - r,
        {
            let c1: Pos;
            let c2: Pos;
            assert(room_ok(rooms[r as int], self.w as int, self.h as int));
            assert(room_ok(rooms[0], self.w as int, self.h as int));
            if r == n - 1 {
                c1 = self.rooms[r].center();
                c2 = self.rooms[0].center();
                assert((r + 1) % (n as int) == 0) by {
                    vstd::arithmetic::div_mod::lemma_mod_self_0(n as int);
                }
            } else {
                assert(room_ok(rooms[r + 1], self.w as int, self.h as int));
                c1 = self.rooms[r].center();
                c2 = self.rooms[r + 1].center();
                assert((r + 1) % (n as int) == r + 1) by {
                    vstd::arithmetic::div_mod::lemma_small_mod((r + 1) as nat, n as nat);
                }
            }
            let c = Corr::new(c1, c2);
            assert(c == room_corr(rooms, r as int));
            let ghost before = *grid;
            assert(in_grid(g0, c1.x as int, c1.y as int) && in_grid(g0, c2.x as int, c2.y as int));
            assert forall|x: int, y: int| #[trigger] in_corr(c, x, y) implies in_grid(*grid, x, y) by {
                assert(in_grid(g0, x, y));
                assert(before@[x]@.len() == g0@[x]@.len());
            }
            self.build_corr(&c, grid);
            assert forall|x: int, y: int| in_grid(g0, x, y) implies #[trigger] cell(*grid, x, y) == if exists|i: int| 0 <= i < r + 1 && in_corr(#[trigger] room_corr(rooms, i), x, y) {
                simple_floor()
            } else {
                cell(g0, x, y)
            } by {
                assert(in_grid(before, x, y));
                if in_corr(c, x, y) {
                    assert(0 <= r < r + 1 && in_corr(room_corr(rooms, r as int), x, y));
                }
            }
            r = r + 1;
        }
    }

    /// Build a corridor on the grid: move along the x-axis first, then along the y-axis.
    fn build_corr(&mut self, c: &Corr, grid: &mut Grid<Tile>)
        requires
            old(self).wf(),
            corr_fits(*c, *old(grid)),
        ensures
            *final(self) == *old(self),
            carved(*old(grid), *final(grid), simple_floor(), |x: int, y: int| in_corr(*c, x, y)),
    {
        let ghost g0 = *grid;
        let mut mover = c.start;
        while mover.x != c.end.x
            invariant
                self.wf(),
                corr_fits(*c, g0),
                mover.y == c.start.y,
                mover.x == c.start.x || between(c.start.x as int, c.end.x as int, mover.x as int),
                carved(g0, *grid, simple_floor(), |x: int, y: int| y == c.start.y && between(c.start.x as int, mover.x as int, x)),
            decreases (if mover.x < c.end.x { c.end.x - mover.x } else { mover.x - c.end.x }),
        {
            let ghost m0 = mover;
            let ghost before = *grid;
            if mover.x < c.end.x {
                mover.x = mover.x + 1;
            } else if mover.x > c.end.x {
                mover.x = mover.x - 1;
            }
            assert(in_corr(*c, mover.x as int, mover.y as int));
            assert(in_grid(g0, mover.x as int, mover.y as int));
            assert(before@[mover.x as int]@.len() == g0@[mover.x as int]@.len());
            index_set(grid, mover, self.floor.clone());
            assert forall|x: int, y: int| in_grid(g0, x, y) implies #[trigger] cell(*grid, x, y) == if y == c.start.y && between(c.start.x as int, mover.x as int, x) {
                simple_floor()
            } else {
                cell(g0, x, y)
            } by {
                assert(cell(before, x, y) == if y == c.start.y && between(c.start.x as int, m0.x as int, x) { simple_floor() } else { cell(g0, x, y) });
            }
        }
        let ghost g1 = *grid;
        while mover.y != c.end.y
            invariant
                self.wf(),
                corr_fits(*c, g0),
                mover.x == c.end.x,
                mover.y == c.start.y || between(c.start.y as int, c.end.y as int, mover.y as int),
                carved(g0, *grid, simple_floor(), |x: int, y: int|
                    (y == c.start.y && between(c.start.x as int, c.end.x as int, x))
                    || (x == c.end.x && between(c.start.y as int, mover.y as int, y))),
            decreases (if mover.y < c.end.y { c.end.y - mover.y } else { mover.y - c.end.y }),
        {
            let ghost m0 = mover;
            let ghost before = *grid;
            if mover.y < c.end.y {
                mover.y = mover.y + 1;
            } else if mover.y > c.end.y {
                mover.y = mover.y - 1;
            }
            assert(in_corr(*c, mover.x as int, mover.y as int));
            assert(in_grid(g0, mover.x as int, mover.y as int));
            assert(before@[mover.x as int]@.len() == g0@[mover.x as int]@.len());
            index_set(grid, mover, self.floor.clone());
            assert forall|x: int, y: int| in_grid(g0, x, y) implies #[trigger] cell(*grid, x, y) == if (y == c.start.y && between(c.start.x as int, c.end.x as int, x))
                || (x == c.end.x && between(c.start.y as int, mover.y as int, y)) {
                simple_floor()
            } else {
                cell(g0, x, y)
            } by {
                assert(cell(before, x, y) == if (y == c.start.y && between(c.start.x as int, c.end.x as int, x))
                    || (x == c.end.x && between(c.start.y as int, m0.y as int, y)) { simple_floor() } else { cell(g0, x, y) });
            }
        }
    }

    /// Build a rectangle on the grid.
    fn build_rect(&mut self, r: &Rect, grid: &mut Grid<Tile>)
        requires
            old(self).wf(),
            r.w <= 0 || r.h <= 0 || rect_fits(*r, *old(grid)),
        ensures
            *final(self) == *old(self),
            carved(*old(grid), *final(grid), simple_floor(), |x: int, y: int| in_rect(*r, x, y)),
    {
        let ghost g0 = *grid;
        let mut w: isize = 0;
        while w < r.w
            invariant
                self.wf(),
                r.w <= 0 || r.h <= 0 || rect_fits(*r, g0),
                0 <= w,
                r.w > 0 ==> w <= r.w,
                r.w <= 0 ==> w == 0,
                carved(g0, *grid, simple_floor(), |x: int, y: int| r.x <= x < r.x + w && r.y <= y < r.y + r.h),
            decreases r.w - w,
        {
            let mut l: isize = 0;
            while l < r.h
                invariant
                    self.wf(),
                    r.h > 0 ==> rect_fits(*r, g0),
                    0 <= w < r.w,
                    0 <= l,
                    r.h > 0 ==> l <= r.h,
                    r.h <= 0 ==> l == 0,
                    carved(g0, *grid, simple_floor(), |x: int, y: int|
                        (r.x <= x < r.x + w && r.y <= y < r.y + r.h) || (x == r.x + w && r.y <= y < r.y + l)),
                decreases r.h - l,
            {
                let ghost before = *grid;
                assert(g0@[r.x + w]@.len() >= r.y + r.h);
                assert(in_grid(g0, r.x + w, r.y + l));
                assert(before@[r.x + w]@.len() == g0@[r.x + w]@.len());
                index_set(grid, Pos::new(w + r.x, l + r.y), self.floor.clone());
                assert forall|x: int, y: int| in_grid(g0, x, y) implies #[trigger] cell(*grid, x, y) == if (r.x <= x < r.x + w && r.y <= y < r.y + r.h)
                    || (x == r.x + w && r.y <= y < r.y + l + 1) {
                    simple_floor()
                } else {
                    cell(g0, x, y)
                } by {
                    assert(cell(before, x, y) == if (r.x <= x < r.x + w && r.y <= y < r.y + r.h)
                        || (x == r.x + w && r.y <= y < r.y + l) { simple_floor() } else { cell(g0, x, y) });
                }
                l = l + 1;
            }
            let ghost inner = *grid;
            assert forall|x: int, y: int| in_grid(g0, x, y) implies #[trigger] cell(*grid, x, y) == if r.x <= x < r.x + w + 1 && r.y <= y < r.y + r.h {
                simple_floor()
            } else {
                cell(g0, x, y)
            } by {
                assert(cell(inner, x, y) == if (r.x <= x < r.x + w && r.y <= y < r.y + r.h)
                    || (x == r.x + w && r.y <= y < r.y + l) { simple_floor() } else { cell(g0, x, y) });
            }
            w = w + 1;
        }
        assert forall|x: int, y: int| in_grid(g0, x, y) implies #[trigger] cell(*grid, x, y) == if in_rect(*r, x, y) {
            simple_floor()
        } else {
            cell(g0, x, y)
        } by {
            assert(cell(*grid, x, y) == if r.x <= x < r.x + w && r.y <= y < r.y + r.h { simple_floor() } else { cell(g0, x, y) });
        }
    }

    /// Return a new `Simple` sized after `grid` (its length, and the length of its first column).
    pub fn new(grid: &Grid<Tile>) -> (s: Simple)
        requires
            grid@.len() > 0,
        ensures
            s.wf(),
            s.width() == grid@.len(),
            s.height() == grid@[0]@.len(),
            s.rooms() == Seq::<Rect>::empty(),
    {
        Simple {
            rooms: Vec::<Rect>::new(),
            w: grid.len(),
            h: grid[0].len(),
            floor: Tile::new("Floor", ' ', RGB(7, 7, 7), RGB(0, 0, 0), Type::Floor(Floor::Normal)),
        }
    }
}

/// After the simple filter has run, the rooms are connected in a cycle: the center of each
/// room and every tile of the corridor to the next room's center (the last room's next
/// being the first) are floor.
pub proof fn lemma_rooms_connected(a: Grid<Tile>, b: Grid<Tile>, rooms: Seq<Rect>, w: int, h: int, i: int)
    requires
        is_grid(a, w, h),
        w <= isize::MAX && h <= isize::MAX,
        forall|k: int| 0 <= k < rooms.len() ==> room_ok(#[trigger] rooms[k], w, h),
        carved(a, b, simple_floor(), |x: int, y: int| in_any_room(rooms, x, y) || in_any_corr(rooms, x, y)),
        0 <= i < rooms.len(),
    ensures
        cell(b, rect_center(rooms[i]).x as int, rect_center(rooms[i]).y as int) == simple_floor(),
        forall|x: int, y: int| in_corr(room_corr(rooms, i), x, y) ==> in_grid(b, x, y) && #[trigger] cell(b, x, y) == simple_floor(),
{
    let r0 = rooms[i];
    let r1 = rooms[(i + 1) % rooms.len() as int];
    assert(room_ok(r0, w, h) && room_ok(r1, w, h));
    let c0 = rect_center(r0);
    let c1 = rect_center(r1);
    assert(1 <= c0.x < w && 1 <= c0.y < h);
    assert(1 <= c1.x < w && 1 <= c1.y < h);
    assert(in_rect(r0, c0.x as int, c0.y as int));
    assert(in_any_room(rooms, c0.x as int, c0.y as int));
    assert(in_grid(a, c0.x as int, c0.y as int));
    assert forall|x: int, y: int| in_corr(room_corr(rooms, i), x, y) implies in_grid(b, x, y) && #[trigger] cell(b, x, y) == simple_floor() by {
        assert(in_grid(a, x, y));
        assert(in_any_corr(rooms, x, y));
        assert(b@[x]@.len() == a@[x]@.len());
    }
}

impl Filter for Simple {
    type Output = Tile;

    open spec fn fits(&self, grid: Grid<Tile>) -> bool {
        &&& self.wf()
        &&& self.size_ok()
        &&& is_grid(grid, self.width() as int, self.height() as int)
    }

    /// Place rooms, then connect each to the next by a corridor, the last back to the first.
    ///
    /// When no room could be placed there is nothing to connect and the grid keeps only
    /// what room placement did (no rooms, so no change).
    fn apply(&mut self, grid: &mut Grid<Tile>)
        ensures
            final(self).wf(),
            final(self).width() == old(self).width(),
            final(self).height() == old(self).height(),
            exists|draws: Seq<(usize, usize, usize, usize)>| {
                &&& draws.len() == (old(self).width() + old(self).height()) / 10
                &&& draws_ok(draws, old(self).width() as int, old(self).height() as int)
                &&& #[trigger] accepted_rooms(draws, old(self).width() as int, old(self).height() as int) == final(self).rooms()
            },
            carved(*old(grid), *final(grid), simple_floor(), |x: int, y: int|
                in_any_room(final(self).rooms(), x, y) || in_any_corr(final(self).rooms(), x, y)),
    {
        let ghost g0 = *grid;
        self.add_rooms(grid);
        let ghost g1 = *grid;
        if self.rooms.len() > 0 {
            assert forall|x: int| 0 <= x < self.w implies (#[trigger] grid@[x])@.len() == self.h by {
                assert(grid@[x]@.len() == g0@[x]@.len());
            }
            self.connect_rooms(grid);
            assert forall|x: int, y: int| in_grid(g0, x, y) implies #[trigger] cell(*grid, x, y) == if in_any_room(self.rooms@, x, y) || in_any_corr(self.rooms@, x, y) {
                simple_floor()
            } else {
                cell(g0, x, y)
            } by {
                assert(in_grid(g1, x, y));
            }
        }
    }
}

} // verus!
