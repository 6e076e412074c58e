//! Renderer logic: colors, the camera, and what gets drawn where and how.

use self::camera::Camera;
use crate::engine::renderer::rgb::{rgb_add, rgb_sub};
use crate::engine::world::dungeon::map::grid::{cell, in_grid};
use crate::engine::world::dungeon::map::tile::{
    darken_fac, new_tile_view, spec_darken_fac, spec_yellow_fac, with_colors, yellow_fac, TileView,
    Type, NUM_SCENTS,
};
use crate::engine::world::dungeon::map::{Grid, Pos, Tile};
use crate::random::pick;
use vstd::prelude::*;

pub mod camera;
pub mod renderable;
pub use self::renderable::Renderable;
pub mod rgb;
pub use self::rgb::RGB;

verus! {

/// The colors water shimmers between.
pub open spec fn water_colors() -> Seq<RGB> {
    seq![RGB(51, 133, 200), RGB(57, 144, 200), RGB(54, 138, 200)]
}

/// A copy of `tile` with `factor` added (capped) to both colors.
fn amplify_col(tile: &Tile, factor: RGB) -> (t: Tile)
    ensures
        t@ == with_colors(tile@, rgb_add(tile.fg, factor), rgb_add(tile.bg, factor)),
{
    let mut replace = tile.clone();
    replace.fg = tile.fg + factor;
    replace.bg = tile.bg + factor;
    replace
}

/// A copy of `tile` with `factor` subtracted (floored) from both colors.
fn reduce_col(tile: &Tile, factor: RGB) -> (t: Tile)
    ensures
        t@ == with_colors(tile@, rgb_sub(tile.fg, factor), rgb_sub(tile.bg, factor)),
{
    let mut replace = tile.clone();
    replace.fg = tile.fg - factor;
    replace.bg = tile.bg - factor;
    replace
}

/// A darker copy of `tile`.
fn darken(tile: &Tile) -> (t: Tile)
    ensures
        t@ == with_colors(tile@, rgb_sub(tile.fg, spec_darken_fac()), rgb_sub(tile.bg, spec_darken_fac())),
{
    reduce_col(tile, darken_fac())
}

/// A more yellowish copy of `tile`.
fn yellowish(tile: &Tile) -> (t: Tile)
    ensures
        t@ == with_colors(tile@, rgb_add(tile.fg, spec_yellow_fac()), rgb_add(tile.bg, spec_yellow_fac())),
{
    amplify_col(tile, yellow_fac())
}

/// The tile the scent overlay draws: white on a color mixed from the scents
/// (player and feline in red, insectoid and feline in green, canine in blue).
pub open spec fn scent_debug_tile(s: Seq<crate::engine::world::dungeon::map::tile::_Scent>) -> TileView {
    new_tile_view(
        "Debug Scent"@,
        ' ',
        RGB(255, 255, 255),
        RGB((s[0].val + 50 + s[3].val) as u8, (s[1].val + 25 + s[3].val) as u8, (s[2].val + 50) as u8),
        Type::Debug,
    )
}

/// How the scent overlay mixes its colors: starting from (50, 25, 50) with no scent, the
/// player's scent (first) adds to red, the insectoid's (second) to green, the canine's
/// (third) to blue, and the feline's (fourth) to red and green, one for one, as long as
/// the colors fit.
pub proof fn lemma_scent_overlay_mix(s: Seq<crate::engine::world::dungeon::map::tile::_Scent>)
    requires
        s.len() == NUM_SCENTS,
        s[0].val + 50 + s[3].val <= 255,
        s[1].val + 25 + s[3].val <= 255,
        s[2].val + 50 <= 255,
    ensures
        scent_debug_tile(s).bg.0 == 50 + s[0].val + s[3].val,
        scent_debug_tile(s).bg.1 == 25 + s[1].val + s[3].val,
        scent_debug_tile(s).bg.2 == 50 + s[2].val,
        scent_debug_tile(s).fg == RGB(255, 255, 255),
{
}

/// Raising only the player's scent by `d` raises the overlay's red by `d` and leaves its
/// green and blue alone: the player's scent shows in red.
pub proof fn lemma_player_scent_shows_red(
    s1: Seq<crate::engine::world::dungeon::map::tile::_Scent>,
    s2: Seq<crate::engine::world::dungeon::map::tile::_Scent>,
    d: int,
)
    requires
        s1.len() == NUM_SCENTS && s2.len() == NUM_SCENTS,
        s2[0].val == s1[0].val + d,
        s2[1] == s1[1] && s2[2] == s1[2] && s2[3] == s1[3],
        s2[0].val + 50 + s2[3].val <= 255,
        s1[0].val + 50 + s1[3].val <= 255,
        s1[1].val + 25 + s1[3].val <= 255,
        s1[2].val + 50 <= 255,
    ensures
        scent_debug_tile(s2).bg.0 == scent_debug_tile(s1).bg.0 + d,
        scent_debug_tile(s2).bg.1 == scent_debug_tile(s1).bg.1,
        scent_debug_tile(s2).bg.2 == scent_debug_tile(s1).bg.2,
{
}

/// The scent overlay's colors fit in a `u8` for this tile.
pub open spec fn scent_colors_fit(t: TileView) -> bool {
    &&& t.scents.len() == NUM_SCENTS
    &&& t.scents[0].val + 50 + t.scents[3].val <= 255
    &&& t.scents[1].val + 25 + t.scents[3].val <= 255
    &&& t.scents[2].val + 50 <= 255
}

/// Some scent on the tile is above zero.
pub open spec fn has_scent(t: TileView) -> bool {
    exists|k: int| 0 <= k < NUM_SCENTS && (#[trigger] t.scents[k]).val > 0
}

/// The tile the sound overlay draws: white on the tile's own red and green, with the sound as blue.
pub open spec fn sound_debug_tile(t: TileView) -> TileView {
    new_tile_view("Debug Sound"@, ' ', RGB(255, 255, 255), RGB(t.bg.0, t.bg.1, t.sound), Type::Debug)
}

/// The sum of all scents on the tile but the player's.
pub open spec fn non_player_sum(s: Seq<crate::engine::world::dungeon::map::tile::_Scent>) -> int
    decreases s.len(),
{
    if s.len() == 0 {
        0
    } else {
        non_player_sum(s.drop_last()) + if s.last().scent_type != crate::engine::world::dungeon::map::tile::Scent::Player {
            s.last().val as int
        } else {
            0
        }
    }
}

/// The sum of all scents on the tile but the player's (shown in the side panel), exact:
/// three full scents of other kinds sum to 765, past what a `u8` holds.
pub fn non_player_scent(tile: &Tile) -> (n: usize)
    requires
        tile.scents@.len() <= usize::MAX / 255,
    ensures
        n == non_player_sum(tile.scents@),
{
    let mut n: usize = 0;
    let mut i: usize = 0;
    while i < tile.scents.len()
        invariant
            i <= tile.scents@.len() <= usize::MAX / 255,
            n == non_player_sum(tile.scents@.take(i as int)),
        decreases tile.scents@.len() - i,
    {
        let scent = tile.scents[i];
        assert(tile.scents@.take(i + 1).drop_last() =~= tile.scents@.take(i as int));
        proof {
            lemma_non_player_sum_bound(tile.scents@.take(i as int));
        }
        if scent.scent_type != crate::engine::world::dungeon::map::tile::Scent::Player {
            n = n + scent.val as usize;
        }
        i = i + 1;
    }
    assert(tile.scents@.take(tile.scents@.len() as int) =~= tile.scents@);
    n
}

/// Each scent adds at most 255.
proof fn lemma_non_player_sum_bound(s: Seq<crate::engine::world::dungeon::map::tile::_Scent>)
    ensures
        0 <= non_player_sum(s) <= 255 * s.len(),
    decreases s.len(),
{
    if s.len() > 0 {
        lemma_non_player_sum_bound(s.drop_last());
    }
}

/// The renderer: tracks a position with its camera and decides how tiles are drawn.
///
/// It never draws outside the screen area left of the side panel and above the log.
pub struct Renderer {
    camera: Camera,
    screen: Pos,
    console_height: isize,
    panel_width: isize,
    pub show_scent: bool,
    pub fov: bool,
    pub show_sound: bool,
}

impl Renderer {
    /// The renderer's camera.
    pub closed spec fn cam(&self) -> Camera {
        self.camera
    }

    /// The screen dimensions.
    pub closed spec fn screen_dim(&self) -> Pos {
        self.screen
    }

    /// The height of the log console.
    pub closed spec fn console_h(&self) -> isize {
        self.console_height
    }

    /// The width of the side panel.
    pub closed spec fn panel_w(&self) -> isize {
        self.panel_width
    }

    /// Whether the scent overlay is on.
    pub closed spec fn scent_on(&self) -> bool {
        self.show_scent
    }

    /// Whether the sound overlay is on.
    pub closed spec fn sound_on(&self) -> bool {
        self.show_sound
    }

    /// Whether field of view is on.
    pub closed spec fn fov_on(&self) -> bool {
        self.fov
    }

    /// Return a new `Renderer`: its camera covers the map area of the screen, that is the
    /// screen minus the side panel and the log console (and one line for each border).
    pub fn new(map: Pos, screen: Pos, console_height: isize, panel_width: isize) -> (r: Renderer)
        requires
            isize::MIN <= screen.x - panel_width <= isize::MAX,
            isize::MIN <= screen.y - console_height <= isize::MAX,
            isize::MIN <= screen.x - panel_width - 1 <= isize::MAX,
            isize::MIN <= screen.y - console_height - 1 <= isize::MAX,
        ensures
            r.cam().offset() == (Pos { x: 0, y: 0 }),
            r.cam().map_dim() == map,
            r.cam().screen_dim() == (Pos {
                x: (screen.x - panel_width - 1) as isize,
                y: (screen.y - console_height - 1) as isize,
            }),
            r.screen_dim() == screen,
            r.console_h() == console_height,
            r.panel_w() == panel_width,
            !r.scent_on() && r.fov_on() && !r.sound_on(),
    {
        Renderer {
            camera: Camera::new(map, Pos::new(screen.x - panel_width - 1, screen.y - console_height - 1)),
            console_height: console_height,
            panel_width: panel_width,
            screen: screen,
            show_scent: false,
            fov: true,
            show_sound: false,
        }
    }

    /// Center the camera over `pos` as far as the map allows.
    pub fn move_camera(&mut self, pos: Pos)
        requires
            isize::MIN <= pos.x - crate::engine::world::dungeon::map::construct::rect::div_trunc(old(self).cam().screen_dim().x as int, 2) <= isize::MAX,
            isize::MIN <= pos.y - crate::engine::world::dungeon::map::construct::rect::div_trunc(old(self).cam().screen_dim().y as int, 2) <= isize::MAX,
            isize::MIN < old(self).cam().map_dim().x - old(self).cam().screen_dim().x <= isize::MAX,
            isize::MIN < old(self).cam().map_dim().y - old(self).cam().screen_dim().y <= isize::MAX,
        ensures
            final(self).cam().map_dim() == old(self).cam().map_dim(),
            final(self).cam().screen_dim() == old(self).cam().screen_dim(),
            final(self).cam().offset() == camera::camera_offset(pos, old(self).cam().map_dim(), old(self).cam().screen_dim()),
            final(self).screen_dim() == old(self).screen_dim(),
            final(self).console_h() == old(self).console_h(),
            final(self).panel_w() == old(self).panel_w(),
            final(self).fov_on() == old(self).fov_on(),
            final(self).scent_on() == old(self).scent_on(),
            final(self).sound_on() == old(self).sound_on(),
    {
        self.camera.move_to(pos);
    }

    /// Where on the console something at map position `pos` is drawn, if it is drawn at all.
    pub fn draw_position(&self, pos: Pos) -> (p: Option<Pos>)
        requires
            isize::MIN <= pos.x + self.cam().offset().x <= isize::MAX,
            isize::MIN <= pos.y + self.cam().offset().y <= isize::MAX,
        ensures
            p == if self.cam().sees(pos) {
                Some(Pos { x: (pos.x + self.cam().offset().x) as isize, y: (pos.y + self.cam().offset().y) as isize })
            } else {
                None::<Pos>
            },
    {
        proof {
            self.camera.lemma_offset();
        }
        if !self.camera.is_in_camera(pos) {
            return None;
        }
        Some(pos + self.camera.pos)
    }

    /// Where the interface is drawn: the column of the line that splits the map from the
    /// side panel, the row of the line that splits the map from the log, and the column
    /// at which the panel's text starts.
    pub fn ui_layout(&self) -> (l: (isize, isize, isize))
        requires
            isize::MIN <= self.screen_dim().x - self.panel_w() - 1,
            self.screen_dim().x - self.panel_w() + 1 <= isize::MAX,
            isize::MIN <= self.screen_dim().y - self.console_h() - 1,
            self.screen_dim().y - self.console_h() <= isize::MAX,
        ensures
            l.0 == self.screen_dim().x - self.panel_w() - 1,
            l.1 == self.screen_dim().y - self.console_h() - 1,
            l.2 == self.screen_dim().x - self.panel_w() + 1,
    {
        (
            self.screen.x - self.panel_width - 1,
            self.screen.y - self.console_height - 1,
            self.screen.x - self.panel_width + 1,
        )
    }

    /// The row of the log message at `idx` among the `count` last ones, so that the
    /// most recent message stands on the bottom row.
    pub fn log_row(&self, count: usize, idx: usize) -> (y: isize)
        requires
            idx < count <= isize::MAX,
            isize::MIN <= self.screen_dim().y - (count - idx),
        ensures
            y == self.screen_dim().y - (count - idx),
    {
        self.screen.y - (count as isize - idx as isize)
    }

    /// The background of something drawn "transparently" over a tile with background `bg`:
    /// the tile's own, lit yellowish when field of view is on.
    pub fn transparent_bg(&self, bg: RGB) -> (c: RGB)
        ensures
            c == if self.fov_on() { rgb_add(bg, spec_yellow_fac()) } else { bg },
    {
        if self.fov {
            bg + yellow_fac()
        } else {
            bg
        }
    }


    /// The scent overlay: for each tile with some scent above zero, a debug tile colored
    /// after its scents (see `scent_debug_tile`); `None` elsewhere. Same shape as `dungeon`.
    pub fn debug_render_scent_map(&self, dungeon: &Grid<Tile>) -> (o: Vec<Vec<Option<Tile>>>)
        requires
            forall|x: int, y: int| in_grid(*dungeon, x, y) ==> scent_colors_fit(#[trigger] cell(*dungeon, x, y)),
        ensures
            o@.len() == dungeon@.len(),
            forall|x: int| 0 <= x < o@.len() ==> (#[trigger] o@[x])@.len() == dungeon@[x]@.len(),
            forall|x: int, y: int| in_grid(*dungeon, x, y) ==> match #[trigger] o@[x]@[y] {
                Some(t) => has_scent(cell(*dungeon, x, y)) && t@ == scent_debug_tile(cell(*dungeon, x, y).scents),
                None => !has_scent(cell(*dungeon, x, y)),
            },
    {
        let mut o: Vec<Vec<Option<Tile>>> = Vec::new();
        let mut x: usize = 0;
        while x < dungeon.len()
            invariant
                x <= dungeon@.len(),
                forall|i: int, j: int| in_grid(*dungeon, i, j) ==> scent_colors_fit(#[trigger] cell(*dungeon, i, j)),
                o@.len() == x,
                forall|i: int| 0 <= i < x ==> (#[trigger] o@[i])@.len() == dungeon@[i]@.len(),
                forall|i: int, j: int| 0 <= i < x && 0 <= j < dungeon@[i]@.len() ==> match #[trigger] o@[i]@[j] {
                    Some(t) => has_scent(cell(*dungeon, i, j)) && t@ == scent_debug_tile(cell(*dungeon, i, j).scents),
                    None => !has_scent(cell(*dungeon, i, j)),
                },
            decreases dungeon@.len() - x,
        {
            let mut col: Vec<Option<Tile>> = Vec::new();
            let mut y: usize = 0;
            while y < dungeon[x].len()
                invariant
                    x < dungeon@.len(),
                    y <= dungeon@[x as int]@.len(),
                    forall|i: int, j: int| in_grid(*dungeon, i, j) ==> scent_colors_fit(#[trigger] cell(*dungeon, i, j)),
                    col@.len() == y,
                    forall|j: int| 0 <= j < y ==> match #[trigger] col@[j] {
                        Some(t) => has_scent(cell(*dungeon, x as int, j)) && t@ == scent_debug_tile(cell(*dungeon, x as int, j).scents),
                        None => !has_scent(cell(*dungeon, x as int, j)),
                    },
                decreases dungeon@[x as int]@.len() - y,
            {
                let tile = &dungeon[x][y];
                assert(scent_colors_fit(cell(*dungeon, x as int, y as int)));
                let color = RGB(
                    tile.scents[0].val + 50 + tile.scents[3].val,
                    tile.scents[1].val + 25 + tile.scents[3].val,
                    tile.scents[2].val + 50,
                );
                let mut drawn: Option<Tile> = None;
                let mut k: usize = 0;
                while k < NUM_SCENTS
                    invariant
                        tile@.scents.len() == NUM_SCENTS,
                        scent_colors_fit(tile@),
                        color == RGB(
                            (tile@.scents[0].val + 50 + tile@.scents[3].val) as u8,
                            (tile@.scents[1].val + 25 + tile@.scents[3].val) as u8,
                            (tile@.scents[2].val + 50) as u8,
                        ),
                        k <= NUM_SCENTS,
                        drawn is None ==> forall|m: int| 0 <= m < k ==> (#[trigger] tile@.scents[m]).val == 0,
                        drawn matches Some(t) ==> has_scent(tile@) && t@ == scent_debug_tile(tile@.scents),
                    ensures
                        drawn is None ==> !has_scent(tile@),
                        drawn matches Some(t) ==> has_scent(tile@) && t@ == scent_debug_tile(tile@.scents),
                    decreases NUM_SCENTS - k,
                {
                    if tile.scents[k].val > 0 {
                        drawn = Some(Tile::new("Debug Scent", ' ', RGB(255, 255, 255), color, Type::Debug));
                        assert(has_scent(tile@));
                        break;
                    }
                    k = k + 1;
                }
                let ghost c0 = col@;
                col.push(drawn);
                assert(col@[y as int] == drawn);
                assert forall|j: int| 0 <= j < y implies col@[j] == c0[j] by {}
                y = y + 1;
            }
            o.push(col);
            x = x + 1;
        }
        o
    }

    /// The sound overlay: for each tile with sound above zero, a debug tile whose background
    /// keeps the tile's red and green and takes the sound as blue; `None` elsewhere.
    pub fn debug_render_sound_map(&self, dungeon: &Grid<Tile>) -> (o: Vec<Vec<Option<Tile>>>)
        ensures
            o@.len() == dungeon@.len(),
            forall|x: int| 0 <= x < o@.len() ==> (#[trigger] o@[x])@.len() == dungeon@[x]@.len(),
            forall|x: int, y: int| in_grid(*dungeon, x, y) ==> match #[trigger] o@[x]@[y] {
                Some(t) => cell(*dungeon, x, y).sound > 0 && t@ == sound_debug_tile(cell(*dungeon, x, y)),
                None => cell(*dungeon, x, y).sound == 0,
            },
    {
        let mut o: Vec<Vec<Option<Tile>>> = Vec::new();
        let mut x: usize = 0;
        while x < dungeon.len()
            invariant
                x <= dungeon@.len(),
                o@.len() == x,
                forall|i: int| 0 <= i < x ==> (#[trigger] o@[i])@.len() == dungeon@[i]@.len(),
                forall|i: int, j: int| 0 <= i < x && 0 <= j < dungeon@[i]@.len() ==> match #[trigger] o@[i]@[j] {
                    Some(t) => cell(*dungeon, i, j).sound > 0 && t@ == sound_debug_tile(cell(*dungeon, i, j)),
                    None => cell(*dungeon, i, j).sound == 0,
                },
            decreases dungeon@.len() - x,
        {
            let mut col: Vec<Option<Tile>> = Vec::new();
            let mut y: usize = 0;
            while y < dungeon[x].len()
                invariant
                    x < dungeon@.len(),
                    y <= dungeon@[x as int]@.len(),
                    col@.len() == y,
                    forall|j: int| 0 <= j < y ==> match #[trigger] col@[j] {
                        Some(t) => cell(*dungeon, x as int, j).sound > 0 && t@ == sound_debug_tile(cell(*dungeon, x as int, j)),
                        None => cell(*dungeon, x as int, j).sound == 0,
                    },
                decreases dungeon@[x as int]@.len() - y,
            {
                let tile = &dungeon[x][y];
                let color = RGB(tile.get_bg().r(), tile.get_bg().g(), tile.sound);
                if tile.sound > 0 {
                    col.push(Some(Tile::new("Debug Sound", ' ', RGB(255, 255, 255), color, Type::Debug)));
                } else {
                    col.push(None);
                }
                y = y + 1;
            }
            o.push(col);
            x = x + 1;
        }
        o
    }

    /// How the tile at a map position looks this turn, given whether it is in the field of
    /// view; `None` when it is not drawn. Water in view takes one of the water colors as its
    /// background (kept on the tile); a tile in view is drawn yellowish and becomes seen; a
    /// seen tile out of view is drawn darker. With field of view off, every tile is drawn as is.
    pub fn lit_tile(&self, tile: &mut Tile, in_fov: bool) -> (t: Option<Tile>)
        ensures
            !self.fov_on() ==> *final(tile) == *old(tile) && t is Some && t.unwrap()@ == old(tile)@,
            self.fov_on() && in_fov ==> {
                let lit = TileView { bg: final(tile)@.bg, ..old(tile)@ };
                &&& t is Some
                &&& old(tile).tiletype is Water ==> water_colors().contains(final(tile)@.bg)
                &&& !(old(tile).tiletype is Water) ==> final(tile)@.bg == old(tile)@.bg
                &&& final(tile)@ == (TileView { seen: true, ..lit })
                &&& t.unwrap()@ == with_colors(lit, rgb_add(lit.fg, spec_yellow_fac()), rgb_add(lit.bg, spec_yellow_fac()))
            },
            self.fov_on() && !in_fov ==> {
                &&& *final(tile) == *old(tile)
                &&& old(tile).seen ==> t is Some && t.unwrap()@ == with_colors(
                    old(tile)@,
                    rgb_sub(old(tile)@.fg, spec_darken_fac()),
                    rgb_sub(old(tile)@.bg, spec_darken_fac()),
                )
                &&& !old(tile).seen ==> t is None
            },
    {
        if self.fov {
            if in_fov {
                match tile.tiletype {
                    Type::Water => {
                        let colors = vec![RGB(51, 133, 200), RGB(57, 144, 200), RGB(54, 138, 200)];
                        assert(colors@ == water_colors());
                        match pick(colors.as_slice()) {
                            Some(c) => tile.set_bg((c.0, c.1, c.2)),
                            None => {},
                        }
                    },
                    _ => {},
                }
                let t = yellowish(tile);
                tile.seen = true;
                Some(t)
            } else if tile.seen {
                Some(darken(tile))
            } else {
                None
            }
        } else {
            Some(tile.clone())
        }
    }
}

} // verus!
