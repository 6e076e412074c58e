//! The game world: dungeon generation, and the rules that act on the grid of the
//! current floor each turn (where creatures can stand, scent blooms, memory loss).

pub mod dungeon;

use self::dungeon::map::grid::{cell, grid_height, grid_width, in_grid, rect_grid, same_shape, set_cell};
use self::dungeon::map::tile::{
    generic_floor, new_tile_view, type_walkable, walkable, Floor, Scent, TileView, Trap, Type, _Scent,
};
use crate::engine::renderer::rgb::RGB;
use crate::game::{key_move, keypress_move};
use self::dungeon::map::{Grid, Pos, Tile};
use vstd::prelude::*;

verus! {

/// What a creature sets the scent of the tiles around it to.
pub const SC_INC: u8 = 100;

/// `(x, y)` lies strictly inside the border of `g`, on a tile that can be walked on.
pub open spec fn valid_pos(g: Grid<Tile>, x: int, y: int) -> bool {
    &&& 0 < x < g@.len() - 1
    &&& 0 < y < g@[0]@.len() - 1
    &&& type_walkable(cell(g, x, y).tiletype)
}

/// Whether `(x, y)` lies strictly inside the border of the map, on a walkable tile.
pub fn is_valid_pos(grid: &Grid<Tile>, x: isize, y: isize) -> (b: bool)
    requires
        rect_grid(*grid),
    ensures
        b == valid_pos(*grid, x as int, y as int),
{
    if x <= 0 || y <= 0 {
        return false;
    }
    let ux = x as usize;
    let uy = y as usize;
    if ux + 1 >= grid_width(grid) || uy + 1 >= grid_height(grid) {
        return false;
    }
    assert(grid@[ux as int]@.len() == grid@[0]@.len());
    walkable(&grid[ux][uy])
}

/// `t` with the scents of the kinds in `kinds` raised to `SC_INC`.
pub open spec fn raised(t: TileView, kinds: Set<Scent>) -> TileView {
    TileView {
        scents: t.scents.map_values(
            |sc: _Scent|
                if kinds.contains(sc.scent_type) {
                    _Scent { val: SC_INC, scent_type: sc.scent_type }
                } else {
                    sc
                },
        ),
        ..t
    }
}

/// `(i, j)` is within the 3 by 3 square centered on `p`.
pub open spec fn near(i: int, j: int, p: Pos) -> bool {
    p.x - 1 <= i <= p.x + 1 && p.y - 1 <= j <= p.y + 1
}

/// The kinds of the first `n` sources that stand near `(i, j)`.
pub open spec fn kinds_near(sources: Seq<(Pos, Scent)>, n: int, i: int, j: int) -> Set<Scent> {
    Set::new(|s: Scent| exists|k: int| 0 <= k < n && near(i, j, #[trigger] sources[k].0) && sources[k].1 == s)
}

/// `b` is `a` where every valid position raises the scents of the first `n` sources
/// that stand near it.
pub open spec fn bloomed(a: Grid<Tile>, b: Grid<Tile>, sources: Seq<(Pos, Scent)>, n: int) -> bool {
    &&& same_shape(a, b)
    &&& forall|i: int, j: int|
        in_grid(a, i, j) ==> #[trigger] cell(b, i, j) == if valid_pos(a, i, j) {
            raised(cell(a, i, j), kinds_near(sources, n, i, j))
        } else {
            cell(a, i, j)
        }
}

/// Raising by `k1`, then by `k2`, raises by their union.
proof fn lemma_raised_union(t: TileView, k1: Set<Scent>, k2: Set<Scent>)
    ensures
        raised(raised(t, k1), k2) == raised(t, k1.union(k2)),
{
    assert(raised(raised(t, k1), k2).scents =~= raised(t, k1.union(k2)).scents);
}

/// Raising by nothing changes nothing.
proof fn lemma_raised_empty(t: TileView)
    ensures
        raised(t, Set::empty()) == t,
{
    assert(raised(t, Set::empty()).scents =~= t.scents);
}

/// Raise the scent kind `s` of `t` to `SC_INC`.
fn raise_scent(t: &mut Tile, s: Scent)
    ensures
        final(t)@ == raised(old(t)@, set![s]),
{
    let ghost t0 = t@;
    let mut k: usize = 0;
    while k < t.scents.len()
        invariant
            0 <= k <= t.scents@.len(),
            t.scents@.len() == t0.scents.len(),
            t@ == (TileView { scents: t.scents@, ..t0 }),
            forall|m: int| 0 <= m < k ==> #[trigger] t.scents@[m] == raised(t0, set![s]).scents[m],
            forall|m: int| k <= m < t.scents@.len() ==> #[trigger] t.scents@[m] == t0.scents[m],
        decreases t.scents@.len() - k,
    {
        if t.scents[k].scent_type == s {
            t.scents.set(k, _Scent { val: SC_INC, scent_type: s });
        }
        k = k + 1;
    }
    assert(t.scents@ =~= raised(t0, set![s]).scents);
}

/// Raise the scent kind `s` on every valid position of the 3 by 3 square centered on `p`.
fn bloom_at(grid: &mut Grid<Tile>, p: Pos, s: Scent)
    requires
        rect_grid(*old(grid)),
        isize::MIN < p.x < isize::MAX,
        isize::MIN < p.y < isize::MAX,
    ensures
        rect_grid(*final(grid)),
        same_shape(*old(grid), *final(grid)),
        forall|i: int, j: int|
            in_grid(*old(grid), i, j) ==> #[trigger] cell(*final(grid), i, j) == if near(i, j, p)
                && valid_pos(*old(grid), i, j) {
                raised(cell(*old(grid), i, j), set![s])
            } else {
                cell(*old(grid), i, j)
            },
{
    let ghost g0 = *grid;
    let mut dx: isize = -1;
    while dx < 2
        invariant
            -1 <= dx <= 2,
            isize::MIN < p.x < isize::MAX,
            isize::MIN < p.y < isize::MAX,
            rect_grid(g0),
            rect_grid(*grid),
            same_shape(g0, *grid),
            forall|i: int, j: int|
                in_grid(g0, i, j) ==> #[trigger] cell(*grid, i, j) == if p.x - dx < i <= p.x + 1
                    && near(i, j, p) && valid_pos(g0, i, j) {
                    raised(cell(g0, i, j), set![s])
                } else {
                    cell(g0, i, j)
                },
        decreases 2 - dx,
    {
        let mut dy: isize = -1;
        while dy < 2
            invariant
                -1 <= dx < 2,
                -1 <= dy <= 2,
                isize::MIN < p.x < isize::MAX,
                isize::MIN < p.y < isize::MAX,
                rect_grid(g0),
                rect_grid(*grid),
                same_shape(g0, *grid),
                forall|i: int, j: int|
                    in_grid(g0, i, j) ==> #[trigger] cell(*grid, i, j) == if ((p.x - dx < i <= p.x + 1)
                        || (i == p.x - dx && p.y - dy < j)) && near(i, j, p) && valid_pos(g0, i, j) {
                        raised(cell(g0, i, j), set![s])
                    } else {
                        cell(g0, i, j)
                    },
            decreases 2 - dy,
        {
            let x = p.x - dx;
            let y = p.y - dy;
            let ghost before = *grid;
            let ok = is_valid_pos(grid, x, y);
            proof {
                if in_grid(g0, x as int, y as int) {
                    assert(cell(*grid, x as int, y as int).tiletype == cell(g0, x as int, y as int).tiletype);
                }
                assert(grid@.len() == g0@.len());
                assert(grid@[0]@.len() == g0@[0]@.len());
            }
            if ok {
                assert(in_grid(*grid, x as int, y as int));
                let mut t = grid[x as usize][y as usize].clone();
                raise_scent(&mut t, s);
                set_cell(grid, x as usize, y as usize, t);
                proof {
                    assert forall|i: int| 0 <= i < grid@.len() implies (#[trigger] grid@[i])@.len() == grid@[0]@.len() by {
                        assert(grid@[i]@.len() == before@[i]@.len());
                        assert(grid@[0]@.len() == before@[0]@.len());
                    }
                    assert(cell(before, x as int, y as int) == cell(g0, x as int, y as int));
                }
            }
            dy = dy + 1;
        }
        dx = dx + 1;
    }
}

/// Raise, on every valid position, the scent of each source that stands within one
/// tile of it, as each turn does for the player and for every creature on the floor.
pub fn bloom_scents(grid: &mut Grid<Tile>, sources: &Vec<(Pos, Scent)>)
    requires
        rect_grid(*old(grid)),
        forall|k: int|
            0 <= k < sources@.len() ==> isize::MIN < (#[trigger] sources@[k]).0.x < isize::MAX
                && isize::MIN < sources@[k].0.y < isize::MAX,
    ensures
        rect_grid(*final(grid)),
        bloomed(*old(grid), *final(grid), sources@, sources@.len() as int),
{
    let ghost g0 = *grid;
    let mut n: usize = 0;
    proof {
        assert forall|i: int, j: int| in_grid(g0, i, j) implies #[trigger] cell(*grid, i, j) == if valid_pos(g0, i, j) {
            raised(cell(g0, i, j), kinds_near(sources@, 0, i, j))
        } else {
            cell(g0, i, j)
        } by {
            assert(kinds_near(sources@, 0, i, j) =~= Set::empty());
            lemma_raised_empty(cell(g0, i, j));
        }
    }
    while n < sources.len()
        invariant
            0 <= n <= sources@.len(),
            rect_grid(g0),
            rect_grid(*grid),
            forall|k: int|
                0 <= k < sources@.len() ==> isize::MIN < (#[trigger] sources@[k]).0.x < isize::MAX
                    && isize::MIN < sources@[k].0.y < isize::MAX,
            bloomed(g0, *grid, sources@, n as int),
        decreases sources@.len() - n,
    {
        let (p, s) = sources[n];
        let ghost before = *grid;
        bloom_at(grid, p, s);
        proof {
            assert forall|i: int, j: int| in_grid(g0, i, j) implies #[trigger] cell(*grid, i, j) == if valid_pos(g0, i, j) {
                raised(cell(g0, i, j), kinds_near(sources@, n + 1, i, j))
            } else {
                cell(g0, i, j)
            } by {
                assert(in_grid(before, i, j));
                assert(cell(before, i, j).tiletype == cell(g0, i, j).tiletype);
                assert(valid_pos(before, i, j) == valid_pos(g0, i, j));
                let k0 = kinds_near(sources@, n as int, i, j);
                let k1 = kinds_near(sources@, n + 1, i, j);
                if valid_pos(g0, i, j) {
                    if near(i, j, p) {
                        assert(k1 =~= k0.union(set![s])) by {
                            assert(sources@[n as int].0 == p);
                        }
                        lemma_raised_union(cell(g0, i, j), k0, set![s]);
                    } else {
                        assert(k1 =~= k0);
                    }
                }
            }
        }
        n = n + 1;
    }
}

/// `t` marked as never seen.
pub open spec fn unseen(t: TileView) -> TileView {
    TileView { seen: false, ..t }
}

/// Forget every tile of the map, as a trap of memory loss does: each tile is marked
/// as never seen, and nothing else changes.
pub fn lose_memory(grid: &mut Grid<Tile>)
    ensures
        same_shape(*old(grid), *final(grid)),
        forall|i: int, j: int| in_grid(*old(grid), i, j) ==> #[trigger] cell(*final(grid), i, j) == unseen(cell(*old(grid), i, j)),
{
    let ghost g0 = *grid;
    let mut i: usize = 0;
    while i < grid.len()
        invariant
            0 <= i <= grid@.len(),
            same_shape(g0, *grid),
            forall|a: int, b: int| in_grid(g0, a, b) ==> #[trigger] cell(*grid, a, b) == if a < i {
                unseen(cell(g0, a, b))
            } else {
                cell(g0, a, b)
            },
        decreases grid@.len() - i,
    {
        let mut j: usize = 0;
        while j < grid[i].len()
            invariant
                0 <= i < grid@.len(),
                0 <= j <= grid@[i as int]@.len(),
                same_shape(g0, *grid),
                forall|a: int, b: int| in_grid(g0, a, b) ==> #[trigger] cell(*grid, a, b) == if a < i || (a == i && b < j) {
                    unseen(cell(g0, a, b))
                } else {
                    cell(g0, a, b)
                },
            decreases grid@[i as int]@.len() - j,
        {
            let mut t = grid[i][j].clone();
            t.seen = false;
            set_cell(grid, i, j, t);
            j = j + 1;
        }
        i = i + 1;
    }
}

/// The archetypal floor, as `generic_floor` makes it.
pub open spec fn generic_floor_view() -> TileView {
    new_tile_view("Generic Floor"@, ' ', RGB(0, 0, 0), RGB(0, 0, 0), Type::Floor(Floor::Normal))
}

/// Empty out the floor: every tile becomes a generic floor; return where the player is
/// put, the middle of the map (half its width, half its height, rounded down).
pub fn test_empty(grid: &mut Grid<Tile>) -> (p: Pos)
    requires
        rect_grid(*old(grid)),
    ensures
        same_shape(*old(grid), *final(grid)),
        forall|i: int, j: int| in_grid(*old(grid), i, j) ==> #[trigger] cell(*final(grid), i, j) == generic_floor_view(),
        p.x == old(grid)@.len() / 2,
        p.y == old(grid)@[0]@.len() / 2,
{
    let ghost g0 = *grid;
    let w = grid.len();
    let h = grid[0].len();
    let mut i: usize = 0;
    while i < w
        invariant
            w == g0@.len(),
            0 <= i <= w,
            same_shape(g0, *grid),
            forall|a: int, b: int| in_grid(g0, a, b) ==> #[trigger] cell(*grid, a, b) == if a < i {
                generic_floor_view()
            } else {
                cell(g0, a, b)
            },
        decreases w - i,
    {
        let mut j: usize = 0;
        while j < grid[i].len()
            invariant
                w == g0@.len(),
                0 <= i < w,
                0 <= j <= grid@[i as int]@.len(),
                same_shape(g0, *grid),
                forall|a: int, b: int| in_grid(g0, a, b) ==> #[trigger] cell(*grid, a, b) == if a < i || (a == i && b < j) {
                    generic_floor_view()
                } else {
                    cell(g0, a, b)
                },
            decreases grid@[i as int]@.len() - j,
        {
            set_cell(grid, i, j, generic_floor());
            j = j + 1;
        }
        i = i + 1;
    }
    Pos::from_usize(w / 2, h / 2)
}

/// Where the player stands after pressing `ch` at `p`: moved as the key says when that
/// position is valid, else where it was.
pub open spec fn turn_target(g: Grid<Tile>, p: Pos, ch: char) -> Pos {
    match key_move(ch) {
        Some(m) => {
            let t = Pos { x: (p.x + m.0) as isize, y: (p.y + m.1) as isize };
            if valid_pos(g, t.x as int, t.y as int) {
                t
            } else {
                p
            }
        },
        None => p,
    }
}

/// `b` is `a` with every tile forgotten when `forget`, else `a` itself.
pub open spec fn forgot_if(a: Grid<Tile>, b: Grid<Tile>, forget: bool) -> bool {
    if forget {
        &&& same_shape(a, b)
        &&& forall|i: int, j: int| in_grid(a, i, j) ==> #[trigger] cell(b, i, j) == unseen(cell(a, i, j))
    } else {
        b == a
    }
}

/// One turn of the player on the map after pressing the printable key `ch`: it moves as
/// the key says when the new position is valid; standing on a trap of memory loss at the
/// end of the move (moved or not) forgets the map (the second result says so, for the
/// log); then the player's scent blooms around where it stands.
pub fn player_turn(grid: &mut Grid<Tile>, player: Pos, ch: char) -> (r: (Pos, bool))
    requires
        rect_grid(*old(grid)),
        in_grid(*old(grid), player.x as int, player.y as int),
        isize::MIN + 1 < player.x < isize::MAX - 1,
        isize::MIN + 1 < player.y < isize::MAX - 1,
    ensures
        r.0 == turn_target(*old(grid), player, ch),
        r.1 == (cell(*old(grid), r.0.x as int, r.0.y as int).tiletype == Type::Trap(Trap::MemoryLoss)),
        rect_grid(*final(grid)),
        exists|g1: Grid<Tile>|
            #[trigger] forgot_if(*old(grid), g1, r.1) && bloomed(g1, *final(grid), seq![(r.0, Scent::Player)], 1),
{
    let ghost g0 = *grid;
    let mut p = player;
    let mut lost = false;
    match keypress_move(ch) {
        Some((dx, dy)) => {
            let next = Pos::new(player.x + dx as isize, player.y + dy as isize);
            if is_valid_pos(grid, next.x, next.y) {
                p = next;
            }
        },
        None => {},
    }
    assert(in_grid(*grid, p.x as int, p.y as int));
    if grid[p.x as usize][p.y as usize].tiletype == Type::Trap(Trap::MemoryLoss) {
        lose_memory(grid);
        lost = true;
        assert forall|i: int| 0 <= i < grid@.len() implies (#[trigger] grid@[i])@.len() == grid@[0]@.len() by {
            assert(grid@[i]@.len() == g0@[i]@.len());
            assert(grid@[0]@.len() == g0@[0]@.len());
        }
    }
    let ghost g1 = *grid;
    assert(forgot_if(g0, g1, lost));
    let sources = vec![(p, Scent::Player)];
    assert(sources@ == seq![(p, Scent::Player)]);
    bloom_scents(grid, &sources);
    let r = (p, lost);
    assert(forgot_if(*old(grid), g1, r.1) && bloomed(g1, *grid, seq![(r.0, Scent::Player)], 1));
    r
}

} // verus!
