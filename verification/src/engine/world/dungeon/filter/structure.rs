//! Prefab structures: text maps of walls, floors and grass placed on the grid.

use crate::engine::world::dungeon::map::grid::rect_grid;
use crate::engine::renderer::RGB;
use crate::engine::world::dungeon::map::grid::{cell, grid_cells, in_grid, same_shape, set_cell};
use crate::engine::world::dungeon::map::tile::{new_tile_view, type_opaque, type_walkable, Floor, TileView, Type, Wall};
use crate::engine::world::dungeon::map::{Grid, Tile};
use crate::random::gen_range;
use vstd::prelude::*;

verus! {

/// A character that may appear in a prefab text.
pub open spec fn prefab_char(c: char) -> bool {
    c == '\n' || c == '#' || c == '.' || c == '"'
}

/// The tile a prefab character stands for.
pub open spec fn prefab_tile(c: char) -> TileView {
    if c == '#' {
        new_tile_view("Wall"@, ' ', RGB(40, 40, 40), RGB(33, 33, 33), Type::Wall(Wall::Normal))
    } else if c == '.' {
        new_tile_view("Floor"@, ' ', RGB(27, 27, 27), RGB(20, 20, 20), Type::Floor(Floor::Normal))
    } else {
        new_tile_view("Tall Grass"@, '"', RGB(76, 74, 75), RGB(20, 20, 20), Type::TallGrass)
    }
}

/// The complete (newline-terminated) lines of `s`, and the unterminated rest.
pub open spec fn split_lines(s: Seq<char>) -> (Seq<Seq<char>>, Seq<char>)
    decreases s.len(),
{
    if s.len() == 0 {
        (Seq::empty(), Seq::empty())
    } else {
        let (lines, rest) = split_lines(s.drop_last());
        if s.last() == '\n' {
            (lines.push(rest), Seq::empty())
        } else {
            (lines, rest.push(s.last()))
        }
    }
}

/// One line of prefab text as tiles.
pub open spec fn line_tiles(l: Seq<char>) -> Seq<TileView> {
    l.map_values(|c: char| prefab_tile(c))
}

/// The columns a prefab text describes: one per complete line (text after the last newline is dropped).
pub open spec fn parse_cells(s: Seq<char>) -> Seq<Seq<TileView>> {
    split_lines(s).0.map_values(|l: Seq<char>| line_tiles(l))
}

/// What each prefab character gives, at every place of every prefab text: `#` a wall
/// (named "Wall", not walkable, blocking sight), `.` a floor (walkable, transparent), `"`
/// tall grass (walkable, blocking sight); and for a readable prefab the tiles placed are
/// these, within the first line's length.
pub proof fn lemma_prefab_tile_kinds(s: Seq<char>, i: int, j: int)
    requires
        0 <= i < split_lines(s).0.len(),
        0 <= j < split_lines(s).0[i].len(),
    ensures
        ({
            let c = split_lines(s).0[i][j];
            let t = parse_cells(s)[i][j];
            &&& c == '#' ==> t.tiletype is Wall && t.name == "Wall"@ && !type_walkable(t.tiletype) && type_opaque(t.tiletype)
            &&& c == '.' ==> t.tiletype is Floor && t.name == "Floor"@ && type_walkable(t.tiletype) && !type_opaque(t.tiletype)
            &&& c == '"' ==> t.tiletype is TallGrass && type_walkable(t.tiletype) && type_opaque(t.tiletype)
            &&& prefab_ok(s) && j < parse_cells(s)[0].len() ==> prefab_cells(s)[i][j] == t
        }),
{
    let c = parse_cells(s);
    assert(c.len() == split_lines(s).0.len());
    assert(c[i] == line_tiles(split_lines(s).0[i]));
    assert(c[i].len() == split_lines(s).0[i].len());
    if prefab_ok(s) && j < c[0].len() {
        assert(c[i].len() >= c[0].len());
        assert(prefab_cells(s)[i] == c[i].take(c[0].len() as int));
    }
}

/// A non-empty rectangle of tiles: at least one column, all as long as the first, which is not empty.
pub open spec fn rect_cells(c: Seq<Seq<TileView>>) -> bool {
    &&& c.len() > 0
    &&& c[0].len() > 0
    &&& forall|i: int| 0 <= i < c.len() ==> (#[trigger] c[i]).len() == c[0].len()
}

/// The tiles turned a quarter: column `x` of the result holds row `x` of the input, last column first.
pub open spec fn rot_cells(c: Seq<Seq<TileView>>) -> Seq<Seq<TileView>> {
    Seq::new(c[0].len(), |x: int| Seq::new(c.len(), |y: int| c[c.len() - 1 - y][x]))
}

/// The tiles turned `k` quarters.
pub open spec fn rot_n(c: Seq<Seq<TileView>>, k: nat) -> Seq<Seq<TileView>>
    decreases k,
{
    if k == 0 {
        c
    } else {
        rot_cells(rot_n(c, (k - 1) as nat))
    }
}

/// Turning a rectangle of tiles keeps it a rectangle, with its sides swapped.
pub proof fn lemma_rot_rect(c: Seq<Seq<TileView>>)
    requires
        rect_cells(c),
    ensures
        rect_cells(rot_cells(c)),
        rot_cells(c).len() == c[0].len(),
        rot_cells(c)[0].len() == c.len(),
{
}

/// Turning a rectangle an even number of quarters keeps its sides, an odd number swaps them.
pub proof fn lemma_rot_dims(c: Seq<Seq<TileView>>)
    requires
        rect_cells(c),
    ensures
        forall|k: nat| #![trigger rot_n(c, k)] k < 4 ==> rect_cells(rot_n(c, k)) && if k % 2 == 0 {
            rot_n(c, k).len() == c.len() && rot_n(c, k)[0].len() == c[0].len()
        } else {
            rot_n(c, k).len() == c[0].len() && rot_n(c, k)[0].len() == c.len()
        },
{
    lemma_rot_rect(c);
    lemma_rot_rect(rot_cells(c));
    lemma_rot_rect(rot_cells(rot_cells(c)));
    reveal_with_fuel(rot_n, 4);
    assert forall|k: nat| #![trigger rot_n(c, k)] k < 4 implies rect_cells(rot_n(c, k)) && if k % 2 == 0 {
        rot_n(c, k).len() == c.len() && rot_n(c, k)[0].len() == c[0].len()
    } else {
        rot_n(c, k).len() == c[0].len() && rot_n(c, k)[0].len() == c.len()
    } by {
        if k == 0 {
        } else if k == 1 {
            assert(rot_n(c, 1) == rot_cells(c));
        } else if k == 2 {
            assert(rot_n(c, 2) == rot_cells(rot_cells(c)));
        } else {
            assert(rot_n(c, 3) == rot_cells(rot_cells(rot_cells(c))));
        }
    }
}

/// Four quarter turns bring a rectangle of tiles back to where it started.
pub proof fn lemma_four_rotations(c: Seq<Seq<TileView>>)
    requires
        rect_cells(c),
    ensures
        rot_n(c, 4) == c,
{
    lemma_rot_rect(c);
    lemma_rot_rect(rot_cells(c));
    lemma_rot_rect(rot_cells(rot_cells(c)));
    let r1 = rot_cells(c);
    let r2 = rot_cells(r1);
    let r3 = rot_cells(r2);
    let r4 = rot_cells(r3);
    assert(rot_n(c, 4) == r4) by {
        reveal_with_fuel(rot_n, 5);
    }
    let w = c.len();
    let h = c[0].len();
    assert forall|x: int| 0 <= x < w implies #[trigger] r4[x] =~= c[x] by {
        assert forall|y: int| 0 <= y < h implies r4[x][y] == c[x][y] by {
            assert(r4[x][y] == r3[h - 1 - y][x]);
            assert(r3[h - 1 - y][x] == r2[w - 1 - x][h - 1 - y]);
            assert(r2[w - 1 - x][h - 1 - y] == r1[y][w - 1 - x]);
            assert(r1[y][w - 1 - x] == c[x][y]);
        }
    }
    assert(r4 =~= c);
}

/// The tile a prefab character stands for.
fn prefab_tile_of(c: char) -> (t: Tile)
    ensures
        t@ == prefab_tile(c),
{
    if c == '#' {
        Tile::new("Wall", ' ', RGB(40, 40, 40), RGB(33, 33, 33), Type::Wall(Wall::Normal))
    } else if c == '.' {
        Tile::new("Floor", ' ', RGB(27, 27, 27), RGB(20, 20, 20), Type::Floor(Floor::Normal))
    } else {
        Tile::new("Tall Grass", '"', RGB(76, 74, 75), RGB(20, 20, 20), Type::TallGrass)
    }
}

/// Turn prefab text (`#` wall, `.` floor, `"` tall grass, one column per line) into tiles.
pub fn parse_structure(chars: &Vec<char>) -> (g: Grid<Tile>)
    requires
        forall|i: int| 0 <= i < chars@.len() ==> prefab_char(#[trigger] chars@[i]),
    ensures
        grid_cells(g) == parse_cells(chars@),
{
    let mut strct: Grid<Tile> = Vec::new();
    let mut line: Vec<Tile> = Vec::new();
    let mut i: usize = 0;
    while i < chars.len()
        invariant
            i <= chars@.len(),
            forall|k: int| 0 <= k < chars@.len() ==> prefab_char(#[trigger] chars@[k]),
            grid_cells(strct) == split_lines(chars@.take(i as int)).0.map_values(|l: Seq<char>| line_tiles(l)),
            line@.map_values(|t: Tile| t@) == line_tiles(split_lines(chars@.take(i as int)).1),
        decreases chars@.len() - i,
    {
        let c = chars[i];
        let ghost pre = chars@.take(i as int);
        assert(chars@.take(i + 1).drop_last() =~= pre);
        assert(chars@.take(i + 1).last() == c);
        if c != '\n' {
            let tile = prefab_tile_of(c);
            let ghost l0 = line@.map_values(|t: Tile| t@);
            line.push(tile);
            assert(split_lines(chars@.take(i + 1)).1 == split_lines(pre).1.push(c));
            assert(line_tiles(split_lines(pre).1.push(c)) =~= line_tiles(split_lines(pre).1).push(prefab_tile(c)));
            assert(line@.map_values(|t: Tile| t@) =~= l0.push(prefab_tile(c)));
            assert(line@.map_values(|t: Tile| t@) =~= line_tiles(split_lines(chars@.take(i + 1)).1));
        } else {
            let ghost old_rest = split_lines(pre).1;
            let ghost s0 = strct;
            strct.push(line);
            line = Vec::new();
            assert(grid_cells(strct) =~= split_lines(chars@.take(i + 1)).0.map_values(|l: Seq<char>| line_tiles(l))) by {
                assert(grid_cells(strct) =~= grid_cells(s0).push(line_tiles(old_rest)));
            }
            assert(line@.map_values(|t: Tile| t@) =~= line_tiles(split_lines(chars@.take(i + 1)).1));
        }
        i = i + 1;
    }
    assert(chars@.take(chars@.len() as int) =~= chars@);
    strct
}


/// Turn the tiles a quarter (see `rot_cells`).
fn rot90(grid: Grid<Tile>) -> (r: Grid<Tile>)
    requires
        grid@.len() > 0,
        forall|i: int| 0 <= i < grid@.len() ==> (#[trigger] grid@[i])@.len() >= grid@[0]@.len(),
    ensures
        grid_cells(r) == rot_cells(grid_cells(grid)),
{
    let mut rot_grid: Grid<Tile> = Vec::new();
    let ghost c = grid_cells(grid);
    let mut x: usize = 0;
    while x < grid[0].len()
        invariant
            grid@.len() > 0,
            c == grid_cells(grid),
            forall|i: int| 0 <= i < grid@.len() ==> (#[trigger] grid@[i])@.len() >= grid@[0]@.len(),
            x <= grid@[0]@.len(),
            grid_cells(rot_grid) == rot_cells(c).take(x as int),
        decreases grid@[0]@.len() - x,
    {
        let mut v: Vec<Tile> = Vec::new();
        let mut y: usize = 0;
        while y < grid.len()
            invariant
                grid@.len() > 0,
                c == grid_cells(grid),
                forall|i: int| 0 <= i < grid@.len() ==> (#[trigger] grid@[i])@.len() >= grid@[0]@.len(),
                x < grid@[0]@.len(),
                y <= grid@.len(),
                v@.map_values(|t: Tile| t@) == rot_cells(c)[x as int].take(y as int),
            decreases grid@.len() - y,
        {
            let ghost v0 = v@.map_values(|t: Tile| t@);
            assert(grid@[grid@.len() - 1 - y]@.len() >= grid@[0]@.len());
            let t = grid[grid.len() - 1 - y][x].clone();
            assert(t@ == c[grid@.len() - 1 - y][x as int]);
            v.push(t);
            assert(v@.map_values(|t: Tile| t@) =~= v0.push(c[grid@.len() - 1 - y][x as int]));
            assert(v@.map_values(|t: Tile| t@) =~= rot_cells(c)[x as int].take(y + 1));
            y = y + 1;
        }
        assert(rot_cells(c)[x as int].take(grid@.len() as int) =~= rot_cells(c)[x as int]);
        let ghost r0 = grid_cells(rot_grid);
        let ghost vv = v@.map_values(|t: Tile| t@);
        rot_grid.push(v);
        assert(grid_cells(rot_grid) =~= r0.push(vv));
        assert(grid_cells(rot_grid) =~= rot_cells(c).take(x + 1));
        x = x + 1;
    }
    assert(rot_cells(c).take(grid@[0]@.len() as int) =~= rot_cells(c));
    rot_grid
}

/// `b` is `a` with the tiles `s` stamped over it, corner at `(x, y)`.
pub open spec fn placed(a: Grid<Tile>, b: Grid<Tile>, s: Seq<Seq<TileView>>, x: int, y: int) -> bool {
    &&& same_shape(a, b)
    &&& forall|i: int, j: int|
        in_grid(a, i, j) ==> #[trigger] cell(b, i, j) == if x <= i < x + s.len() && y <= j < y + s[0].len() {
            s[i - x][j - y]
        } else {
            cell(a, i, j)
        }
}

/// Copy the tiles of `strct` onto `grid`, corner at `(x, y)`.
pub(crate) fn stamp(grid: &mut Grid<Tile>, strct: &Grid<Tile>, x: usize, y: usize)
    requires
        rect_cells(grid_cells(*strct)),
        x + strct@.len() <= old(grid)@.len(),
        forall|i: int| x <= i < x + strct@.len() ==> y + strct@[0]@.len() <= (#[trigger] old(grid)@[i])@.len(),
    ensures
        placed(*old(grid), *final(grid), grid_cells(*strct), x as int, y as int),
{
    let ghost g0 = *grid;
    let ghost s = grid_cells(*strct);
    assert(s.len() == strct@.len());
    assert(s[0].len() == strct@[0]@.len());
    let w = strct.len();
    let h = strct[0].len();
    let gl = grid.len();
    if w > 0 {
        let cl = grid[x].len();
        assert(y + h <= cl);
    }
    let mut tx = x;
    while tx < x + w
        invariant
            s == grid_cells(*strct),
            rect_cells(s),
            w == s.len() && h == s[0].len(),
            x + w <= g0@.len(),
            gl == g0@.len(),
            w > 0 ==> y + h <= usize::MAX,
            forall|i: int| x <= i < x + w ==> y + h <= (#[trigger] g0@[i])@.len(),
            x <= tx <= x + w,
            same_shape(g0, *grid),
            forall|i: int, j: int|
                in_grid(g0, i, j) ==> #[trigger] cell(*grid, i, j) == if x <= i < tx && y <= j < y + h {
                    s[i - x][j - y]
                } else {
                    cell(g0, i, j)
                },
        decreases x + w - tx,
    {
        let mut ty = y;
        while ty < y + h
            invariant
                s == grid_cells(*strct),
                rect_cells(s),
                w == s.len() && h == s[0].len(),
                x + w <= g0@.len(),
                y + h <= usize::MAX,
                forall|i: int| x <= i < x + w ==> y + h <= (#[trigger] g0@[i])@.len(),
                x <= tx < x + w,
                y <= ty <= y + h,
                same_shape(g0, *grid),
                forall|i: int, j: int|
                    in_grid(g0, i, j) ==> #[trigger] cell(*grid, i, j) == if (x <= i < tx && y <= j < y + h) || (i == tx && y <= j < ty) {
                        s[i - x][j - y]
                    } else {
                        cell(g0, i, j)
                    },
            decreases y + h - ty,
        {
            let ghost before = *grid;
            assert(s[tx - x].len() == h);
            assert(strct@[tx - x]@.len() == s[tx - x].len());
            assert(g0@[tx as int]@.len() >= y + h);
            assert(before@[tx as int]@.len() == g0@[tx as int]@.len());
            let t = strct[tx - x][ty - y].clone();
            assert(t@ == s[tx - x][ty - y]);
            set_cell(grid, tx, ty, t);
            assert forall|i: int, j: int| in_grid(g0, i, j) implies #[trigger] cell(*grid, i, j) == if (x <= i < tx && y <= j < y + h) || (i == tx && y <= j < ty + 1) {
                s[i - x][j - y]
            } else {
                cell(g0, i, j)
            } by {
                assert(in_grid(before, i, j));
            }
            assert forall|i: int| 0 <= i < g0@.len() implies (#[trigger] g0@[i])@.len() == grid@[i]@.len() by {
                assert(before@[i]@.len() == g0@[i]@.len());
            }
            ty = ty + 1;
        }
        tx = tx + 1;
    }
}

/// `b` is `a` with the tiles `c`, turned `k` quarters (`k < 4`), stamped at `(x, y)`, and
/// the stamp stays clear of the last column and row.
pub open spec fn placed_turned(a: Grid<Tile>, b: Grid<Tile>, c: Seq<Seq<TileView>>, k: nat, x: int, y: int) -> bool {
    let s = rot_n(c, k);
    &&& k < 4
    &&& 0 <= x && 0 <= y
    &&& x + s.len() <= a@.len() - 1
    &&& y + s[0].len() <= a@[0]@.len() - 1
    &&& placed(a, b, s, x, y)
}

/// What stamping the tiles `c`, turned `k` quarters, with their corner at `(x, y)` leaves:
/// the grid unchanged when the turned tiles would reach its last column or row, else
/// the tiles placed there.
pub open spec fn struct_outcome(a: Grid<Tile>, b: Grid<Tile>, c: Seq<Seq<TileView>>, k: nat, x: int, y: int) -> bool {
    let s = rot_n(c, k);
    if x + s.len() > a@.len() - 1 || y + s[0].len() > a@[0]@.len() - 1 {
        b == a
    } else {
        placed_turned(a, b, c, k, x, y)
    }
}

/// The prefab text can be read and turned: only known characters, at least one complete
/// line, a first line that is not empty, and no line shorter than the first (longer lines
/// are cut to the first one's length).
pub open spec fn prefab_ok(s: Seq<char>) -> bool {
    &&& forall|i: int| 0 <= i < s.len() ==> prefab_char(#[trigger] s[i])
    &&& parse_cells(s).len() > 0
    &&& parse_cells(s)[0].len() > 0
    &&& forall|i: int| 0 <= i < parse_cells(s).len() ==> (#[trigger] parse_cells(s)[i]).len() >= parse_cells(s)[0].len()
}

/// Each column cut to the length of the first.
pub open spec fn trim_cells(c: Seq<Seq<TileView>>) -> Seq<Seq<TileView>> {
    c.map_values(|l: Seq<TileView>| l.take(c[0].len() as int))
}

/// The tiles a prefab text places: its columns, each cut to the length of the first.
pub open spec fn prefab_cells(s: Seq<char>) -> Seq<Seq<TileView>> {
    trim_cells(parse_cells(s))
}

/// A readable prefab gives a rectangle of tiles as long and as wide as its text.
pub proof fn lemma_prefab_rect(s: Seq<char>)
    requires
        prefab_ok(s),
    ensures
        rect_cells(prefab_cells(s)),
        prefab_cells(s).len() == parse_cells(s).len(),
        prefab_cells(s)[0].len() == parse_cells(s)[0].len(),
{
    let c = parse_cells(s);
    assert forall|i: int| 0 <= i < prefab_cells(s).len() implies (#[trigger] prefab_cells(s)[i]).len() == prefab_cells(s)[0].len() by {
        assert(c[i].len() >= c[0].len());
    }
}

/// The tiles of a prefab text, each column cut to the length of the first.
pub(crate) fn read_prefab(prefab: &Vec<char>) -> (g: Grid<Tile>)
    requires
        prefab_ok(prefab@),
    ensures
        grid_cells(g) == prefab_cells(prefab@),
        rect_cells(grid_cells(g)),
{
    proof {
        lemma_prefab_rect(prefab@);
    }
    let full = parse_structure(prefab);
    let ghost c = parse_cells(prefab@);
    assert(c.len() == full@.len() && c[0].len() == full@[0]@.len());
    let h = full[0].len();
    let mut g: Grid<Tile> = Vec::new();
    let mut i: usize = 0;
    while i < full.len()
        invariant
            prefab_ok(prefab@),
            c == grid_cells(full),
            c == parse_cells(prefab@),
            c.len() == full@.len(),
            h == c[0].len(),
            i <= full@.len(),
            grid_cells(g) == prefab_cells(prefab@).take(i as int),
        decreases full@.len() - i,
    {
        assert(c[i as int].len() == full@[i as int]@.len());
        assert(c[i as int].len() >= h);
        let mut line: Vec<Tile> = Vec::new();
        let mut j: usize = 0;
        while j < h
            invariant
                c == grid_cells(full),
                c.len() == full@.len(),
                i < full@.len(),
                h <= c[i as int].len(),
                c[i as int].len() == full@[i as int]@.len(),
                j <= h,
                line@.map_values(|t: Tile| t@) == c[i as int].take(j as int),
            decreases h - j,
        {
            let ghost l0 = line@.map_values(|t: Tile| t@);
            let t = full[i][j].clone();
            assert(t@ == c[i as int][j as int]);
            line.push(t);
            assert(line@.map_values(|t: Tile| t@) =~= l0.push(c[i as int][j as int]));
            assert(line@.map_values(|t: Tile| t@) =~= c[i as int].take(j + 1));
            j = j + 1;
        }
        let ghost g0 = grid_cells(g);
        let ghost lv = line@.map_values(|t: Tile| t@);
        g.push(line);
        assert(grid_cells(g) =~= g0.push(lv));
        assert(prefab_cells(prefab@)[i as int] == c[i as int].take(h as int));
        assert(grid_cells(g) =~= prefab_cells(prefab@).take(i + 1));
        i = i + 1;
    }
    assert(prefab_cells(prefab@).take(full@.len() as int) =~= prefab_cells(prefab@));
    g
}


/// Whether `prefab` can be placed: every character known, at least one complete line, a
/// non-empty first line, no line shorter than the first, and sides at most half of `usize::MAX`.
pub fn prefab_valid(prefab: &Vec<char>) -> (b: bool)
    ensures
        b == (prefab_ok(prefab@) && parse_cells(prefab@).len() <= usize::MAX / 2
            && parse_cells(prefab@)[0].len() <= usize::MAX / 2),
{
    let mut i: usize = 0;
    while i < prefab.len()
        invariant
            i <= prefab@.len(),
            forall|k: int| 0 <= k < i ==> prefab_char(#[trigger] prefab@[k]),
        decreases prefab@.len() - i,
    {
        let c = prefab[i];
        if !(c == '\n' || c == '#' || c == '.' || c == '"') {
            return false;
        }
        i = i + 1;
    }
    let g = parse_structure(prefab);
    let ghost c = grid_cells(g);
    assert(c.len() == g@.len());
    if g.len() == 0 || g.len() > usize::MAX / 2 {
        return false;
    }
    assert(c[0].len() == g@[0]@.len());
    let h = g[0].len();
    if h == 0 || h > usize::MAX / 2 {
        return false;
    }
    let mut x: usize = 0;
    while x < g.len()
        invariant
            c == grid_cells(g),
            c == parse_cells(prefab@),
            forall|k: int| 0 <= k < prefab@.len() ==> prefab_char(#[trigger] prefab@[k]),
            h <= usize::MAX / 2,
            h > 0,
            g@.len() <= usize::MAX / 2,
            c.len() == g@.len(),
            g@.len() > 0,
            h == c[0].len(),
            x <= g@.len(),
            forall|k: int| 0 <= k < x ==> (#[trigger] c[k]).len() >= h,
        decreases g@.len() - x,
    {
        assert(c[x as int].len() == g@[x as int]@.len());
        if g[x].len() < h {
            assert(!prefab_ok(prefab@)) by {
                assert(c[x as int].len() < c[0].len());
            }
            return false;
        }
        x = x + 1;
    }
    true
}

/// Structure placer: puts prefab structures on the grid.
#[derive(Copy, Clone, PartialEq, Eq, Debug, Structural)]
pub struct Structure {}

impl Structure {
    /// Parse `prefab`, turn it `turns` quarters, and stamp it with its corner at `(x, y)`,
    /// unless it would reach the last column or row (then the grid is left alone).
    pub fn add_struct_at(&mut self, grid: &mut Grid<Tile>, prefab: &Vec<char>, turns: usize, x: usize, y: usize)
        requires
            prefab_ok(prefab@),
            prefab_cells(prefab@).len() <= usize::MAX / 2,
            prefab_cells(prefab@)[0].len() <= usize::MAX / 2,
            rect_grid(*old(grid)),
            old(grid)@[0]@.len() > 0,
            turns < 4,
            x <= usize::MAX / 2,
            y <= usize::MAX / 2,
        ensures
            ({
                let s = rot_n(prefab_cells(prefab@), turns as nat);
                if x + s.len() > old(grid)@.len() - 1 || y + s[0].len() > old(grid)@[0]@.len() - 1 {
                    *final(grid) == *old(grid)
                } else {
                    placed_turned(*old(grid), *final(grid), prefab_cells(prefab@), turns as nat, x as int, y as int)
                }
            }),
    {
        let ghost c0 = prefab_cells(prefab@);
        let mut strct = read_prefab(prefab);
        let mut k: usize = 0;
        while k < turns
            invariant
                rect_cells(c0),
                c0.len() <= usize::MAX / 2 && c0[0].len() <= usize::MAX / 2,
                k <= turns,
                grid_cells(strct).len() <= usize::MAX / 2 && grid_cells(strct)[0].len() <= usize::MAX / 2,
                grid_cells(strct) == rot_n(c0, k as nat),
                rect_cells(grid_cells(strct)),
            decreases turns - k,
        {
            proof {
                lemma_rot_rect(grid_cells(strct));
                assert(strct@[0]@.len() == grid_cells(strct)[0].len());
                assert forall|i: int| 0 <= i < strct@.len() implies (#[trigger] strct@[i])@.len() >= strct@[0]@.len() by {
                    assert(strct@[i]@.len() == grid_cells(strct)[i].len());
                }
            }
            strct = rot90(strct);
            k = k + 1;
            assert(rot_n(c0, k as nat) == rot_cells(rot_n(c0, (k - 1) as nat)));
        }
        let ghost s = grid_cells(strct);
        assert(s.len() == strct@.len() && s[0].len() == strct@[0]@.len());
        let w = strct.len();
        let h = strct[0].len();
        let total_w = grid.len();
        let total_h = grid[0].len();
        if x + w > total_w - 1 || y + h > total_h - 1 {
            return;
        }
        assert forall|i: int| x <= i < x + w implies y + h <= (#[trigger] grid@[i])@.len() by {}
        let ghost g0 = *grid;
        stamp(grid, &strct, x, y);
        assert(placed_turned(g0, *grid, c0, k as nat, x as int, y as int));
    }

    /// Add a random structure: parse `prefab`, turn it zero to three quarters, and stamp it
    /// at a random corner `(x, y)` with `x` at most its width and `y` at most its height
    /// (as the structure lies after turning), unless it would reach the last column or row.
    /// On a grid more than twice the structure's longer side in each direction, every
    /// corner fits and the structure is always placed.
    pub fn add_rand_struct(&mut self, grid: &mut Grid<Tile>, prefab: &Vec<char>)
        requires
            prefab_ok(prefab@),
            prefab_cells(prefab@).len() <= usize::MAX / 2,
            prefab_cells(prefab@)[0].len() <= usize::MAX / 2,
            rect_grid(*old(grid)),
            old(grid)@[0]@.len() > 0,
        ensures
            same_shape(*old(grid), *final(grid)),
            exists|k: nat, x: int, y: int|
                k < 4 && 0 <= x <= rot_n(prefab_cells(prefab@), k).len() && 0 <= y <= rot_n(prefab_cells(prefab@), k)[0].len()
                    && #[trigger] struct_outcome(*old(grid), *final(grid), prefab_cells(prefab@), k, x, y),
            ({
                let c = prefab_cells(prefab@);
                let n = if c.len() >= c[0].len() { c.len() } else { c[0].len() };
                2 * n <= old(grid)@.len() - 1 && 2 * n <= old(grid)@[0]@.len() - 1
            }) ==> exists|k: nat, x: int, y: int| #[trigger] placed_turned(*old(grid), *final(grid), prefab_cells(prefab@), k, x, y),
    {
        let ghost c0 = prefab_cells(prefab@);
        let strct = read_prefab(prefab);
        assert(c0.len() == strct@.len() && c0[0].len() == strct@[0]@.len());
        let w0 = strct.len();
        let h0 = strct[0].len();
        let turns = gen_range(0, 4);
        proof {
            lemma_rot_dims(c0);
        }
        let (w, h) = if turns % 2 == 0 { (w0, h0) } else { (h0, w0) };
        let x = gen_range(0, w + 1);
        let y = gen_range(0, h + 1);
        self.add_struct_at(grid, prefab, turns, x, y);
        assert(struct_outcome(*old(grid), *grid, c0, turns as nat, x as int, y as int));
        proof {
            assert(rot_n(c0, turns as nat).len() == w && rot_n(c0, turns as nat)[0].len() == h);
            if !(x + w > grid@.len() - 1 || y + h > grid@[0]@.len() - 1) {
                assert(placed_turned(*old(grid), *grid, c0, turns as nat, x as int, y as int));
            }
        }
    }

    /// Return a new `Structure`.
    pub fn new() -> (s: Structure)
        ensures
            s == (Structure {}),
    {
        Structure {}
    }
}

} // verus!
