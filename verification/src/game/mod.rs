//! The game-level camera, and the game's own position type, noise tables and automaton interface.

use self::object::pos::Pos;
use crate::engine::world::dungeon::map::construct::rect::div_trunc;
use crate::engine::renderer::camera::clamp_low_high;
use crate::object::entity::{Color, Entity};
use crate::object::tile::Tile;
use vstd::prelude::*;

pub mod dungeon;
pub mod object;

verus! {

/// Where this camera's offset lands when it moves over `pos`: centered on it, as far as
/// the map allows.
pub open spec fn game_camera_offset(pos: Pos, map: Pos, screen: Pos) -> Pos {
    Pos {
        x: (-clamp_low_high(pos.x - div_trunc(screen.x as int, 2), map.x - screen.x)) as i32,
        y: (-clamp_low_high(pos.y - div_trunc(screen.y as int, 2), map.y - screen.y)) as i32,
    }
}

/// The move a key stands for: `h j k l` left, down, up, right; `y u b n` the diagonals.
pub open spec fn key_move(ch: char) -> Option<(i32, i32)> {
    if ch == 'h' {
        Some((-1i32, 0i32))
    } else if ch == 'j' {
        Some((0i32, 1i32))
    } else if ch == 'k' {
        Some((0i32, -1i32))
    } else if ch == 'l' {
        Some((1i32, 0i32))
    } else if ch == 'y' {
        Some((-1i32, -1i32))
    } else if ch == 'u' {
        Some((1i32, -1i32))
    } else if ch == 'b' {
        Some((-1i32, 1i32))
    } else if ch == 'n' {
        Some((1i32, 1i32))
    } else {
        None
    }
}

/// The move a printable key asks the player for, if any.
pub fn keypress_move(ch: char) -> (m: Option<(i32, i32)>)
    ensures
        m == key_move(ch),
{
    match ch {
        'h' => Some((-1, 0)),
        'j' => Some((0, 1)),
        'k' => Some((0, -1)),
        'l' => Some((1, 0)),
        'y' => Some((-1, -1)),
        'u' => Some((1, -1)),
        'b' => Some((-1, 1)),
        'n' => Some((1, 1)),
        _ => None,
    }
}

/// Where the player stands after pressing `ch` at `player`, among `tiles` given as
/// position and whether the tile blocks: moved as the key says, unless a blocking tile
/// stands where the move ends.
pub open spec fn stepped(player: Pos, ch: char, tiles: Seq<(Pos, bool)>) -> Pos {
    let next = match key_move(ch) {
        Some(m) => Pos { x: (player.x + m.0) as i32, y: (player.y + m.1) as i32 },
        None => player,
    };
    if exists|k: int| 0 <= k < tiles.len() && (#[trigger] tiles[k]).1 && tiles[k].0 == next {
        player
    } else {
        next
    }
}

/// Move the player as the printable key `ch` asks, then put it back where it was if a
/// blocking tile stands there.
pub fn player_step(player: Pos, ch: char, tiles: &Vec<(Pos, bool)>) -> (p: Pos)
    requires
        i32::MIN < player.x < i32::MAX,
        i32::MIN < player.y < i32::MAX,
    ensures
        p == stepped(player, ch, tiles@),
{
    let next = match keypress_move(ch) {
        Some((dx, dy)) => Pos::new(player.x + dx, player.y + dy),
        None => player,
    };
    let mut p = next;
    let mut k: usize = 0;
    while k < tiles.len()
        invariant
            0 <= k <= tiles@.len(),
            next == (match key_move(ch) {
                Some(m) => Pos { x: (player.x + m.0) as i32, y: (player.y + m.1) as i32 },
                None => player,
            }),
            p == if exists|m: int| 0 <= m < k && (#[trigger] tiles@[m]).1 && tiles@[m].0 == next {
                player
            } else {
                next
            },
        decreases tiles@.len() - k,
    {
        let (pos, blocks) = tiles[k];
        if blocks && pos == next {
            p = player;
        }
        proof {
            if blocks && pos == next {
                assert(tiles@[k as int].1 && tiles@[k as int].0 == next);
            }
        }
        k = k + 1;
    }
    p
}

/// The tile a new game lays for the dungeon cell `cell` at `(x, y)`: white on black and
/// open for a floor cell (1), white on grey and blocking for any other cell; no glyph.
pub open spec fn cell_tile(x: int, y: int, cell: u8) -> Tile {
    Tile {
        entity: Entity {
            pos: crate::object::pos::Pos { x: x as i32, y: y as i32 },
            glyph: ' ',
            fg: Color { r: 255, g: 255, b: 255 },
            bg: if cell == 1 { Color { r: 0, g: 0, b: 0 } } else { Color { r: 33, g: 33, b: 33 } },
        },
        blocks: cell != 1,
    }
}

/// The tiles of column `x`, one per cell, in order.
pub open spec fn column_tiles(x: int, col: Seq<u8>) -> Seq<Tile> {
    Seq::new(col.len(), |y: int| cell_tile(x, y, col[y]))
}

/// The tiles of the first `n` columns of `cells`, column after column.
pub open spec fn floor_tile_seq(cells: Seq<Vec<u8>>, n: int) -> Seq<Tile> {
    Seq::new(n as nat, |x: int| column_tiles(x, cells[x]@)).flatten()
}

/// The tiles a new game lays for a dungeon of cells (1 for floor): one per cell, column
/// after column (x first, then y), as `cell_tile` says.
pub fn floor_tiles(cells: &Vec<Vec<u8>>) -> (v: Vec<Tile>)
    requires
        cells@.len() <= i32::MAX,
        forall|x: int| 0 <= x < cells@.len() ==> (#[trigger] cells@[x])@.len() <= i32::MAX,
    ensures
        v@ == floor_tile_seq(cells@, cells@.len() as int),
{
    let mut v: Vec<Tile> = Vec::new();
    let mut x: usize = 0;
    while x < cells.len()
        invariant
            x <= cells@.len() <= i32::MAX,
            forall|k: int| 0 <= k < cells@.len() ==> (#[trigger] cells@[k])@.len() <= i32::MAX,
            v@ == floor_tile_seq(cells@, x as int),
        decreases cells@.len() - x,
    {
        let ghost prev = v@;
        let mut y: usize = 0;
        while y < cells[x].len()
            invariant
                x < cells@.len() <= i32::MAX,
                cells@[x as int]@.len() <= i32::MAX,
                y <= cells@[x as int]@.len(),
                v@ == prev + column_tiles(x as int, cells@[x as int]@).take(y as int),
            decreases cells@[x as int]@.len() - y,
        {
            let c = cells[x][y];
            let bg = if c == 1 { Color { r: 0, g: 0, b: 0 } } else { Color { r: 33, g: 33, b: 33 } };
            let t = Tile::new(crate::object::pos::Pos::new(x as i32, y as i32), ' ', Color { r: 255, g: 255, b: 255 }, bg, c != 1);
            v.push(t);
            assert(column_tiles(x as int, cells@[x as int]@).take(y + 1)
                =~= column_tiles(x as int, cells@[x as int]@).take(y as int).push(t));
            y = y + 1;
        }
        proof {
            let f = |k: int| column_tiles(k, cells@[k]@);
            assert(column_tiles(x as int, cells@[x as int]@).take(cells@[x as int]@.len() as int)
                =~= column_tiles(x as int, cells@[x as int]@));
            assert(Seq::new((x + 1) as nat, f) =~= Seq::new(x as nat, f).push(f(x as int)));
            Seq::new(x as nat, f).lemma_flatten_push(f(x as int));
        }
        x = x + 1;
    }
    v
}

/// A camera: the offset it is panned to, the map dimensions and the screen dimensions.
pub struct Camera {
    pub(crate) camera: Pos,
    pub(crate) map: Pos,
    pub(crate) screen: Pos,
}

impl Camera {
    /// The offset the camera is panned to.
    pub closed spec fn offset(&self) -> Pos {
        self.camera
    }

    /// The map dimensions.
    pub closed spec fn map_dim(&self) -> Pos {
        self.map
    }

    /// The screen dimensions.
    pub closed spec fn screen_dim(&self) -> Pos {
        self.screen
    }

    /// Check if a `Pos` is in the camera.
    pub fn is_in_camera(&self, pos: Pos) -> (b: bool)
        requires
            i32::MIN <= pos.x + self.offset().x <= i32::MAX,
            i32::MIN <= pos.y + self.offset().y <= i32::MAX,
        ensures
            b == (0 <= pos.x + self.offset().x < self.screen_dim().x && 0 <= pos.y + self.offset().y < self.screen_dim().y),
    {
        let npos = pos + self.camera;
        if npos.x >= 0 && npos.x < self.screen.x && npos.y >= 0 && npos.y < self.screen.y {
            return true;
        } else {
            return false;
        };
    }

    /// Move the camera over a position: center it there as far as the map allows, so that
    /// a position of the map is always in view after the camera moved over it.
    pub fn move_to(&mut self, pos: Pos)
        requires
            i32::MIN <= pos.x - div_trunc(old(self).screen_dim().x as int, 2) <= i32::MAX,
            i32::MIN <= pos.y - div_trunc(old(self).screen_dim().y as int, 2) <= i32::MAX,
            i32::MIN < old(self).map_dim().x - old(self).screen_dim().x <= i32::MAX,
            i32::MIN < old(self).map_dim().y - old(self).screen_dim().y <= i32::MAX,
        ensures
            final(self).map_dim() == old(self).map_dim(),
            final(self).screen_dim() == old(self).screen_dim(),
            final(self).offset() == game_camera_offset(pos, old(self).map_dim(), old(self).screen_dim()),
    {
        let mut x = pos.x - (self.screen.x / 2);
        let mut y = pos.y - (self.screen.y / 2);
        if x < 0 {
            x = 0;
        }
        if y < 0 {
            y = 0;
        }
        if x > self.map.x - self.screen.x {
            x = self.map.x - self.screen.x;
        }
        if y > self.map.y - self.screen.y {
            y = self.map.y - self.screen.y;
        }
        self.camera = Pos::new(-x, -y);
    }

    /// Return a new `Camera` at the origin.
    pub fn new(map: Pos, screen: Pos) -> (c: Camera)
        ensures
            c.offset() == (Pos { x: 0, y: 0 }),
            c.map_dim() == map,
            c.screen_dim() == screen,
    {
        return Camera { camera: Pos::origin(), map: map, screen: screen };
    }
}

/// Away from the map's edges the camera centers its view: once moved over `pos`, the
/// camera draws `pos` at the screen's middle column and row (half the screen's size,
/// rounded down), on each axis where the map leaves room for that.
pub proof fn lemma_move_to_centers(pos: Pos, map: Pos, screen: Pos)
    requires
        0 <= screen.x,
        0 <= screen.y,
    ensures
        screen.x / 2 <= pos.x && pos.x - screen.x / 2 <= map.x - screen.x
            ==> pos.x + game_camera_offset(pos, map, screen).x == screen.x / 2,
        screen.y / 2 <= pos.y && pos.y - screen.y / 2 <= map.y - screen.y
            ==> pos.y + game_camera_offset(pos, map, screen).y == screen.y / 2,
{
}

/// When the screen fits in the map, a camera moved over a position of the map has that
/// position in view: the player, drawn after the camera moves over it, is always drawn.
pub proof fn lemma_move_to_shows(pos: Pos, map: Pos, screen: Pos)
    requires
        1 <= screen.x <= map.x,
        1 <= screen.y <= map.y,
        0 <= pos.x < map.x,
        0 <= pos.y < map.y,
    ensures
        0 <= pos.x + game_camera_offset(pos, map, screen).x < screen.x,
        0 <= pos.y + game_camera_offset(pos, map, screen).y < screen.y,
{
}

} // verus!
