//! Selects the part of the map that is on screen.

use crate::engine::world::dungeon::map::construct::rect::div_trunc;
use crate::engine::world::dungeon::map::Pos;
use std::ops::Neg;
use vstd::prelude::*;

verus! {

/// `v` raised to 0, then lowered to `hi` (in that order).
pub open spec fn clamp_low_high(v: int, hi: int) -> int {
    let lo = if v < 0 { 0 } else { v };
    if lo > hi { hi } else { lo }
}

/// Where the camera's offset lands when it moves over `pos`.
pub open spec fn camera_offset(pos: Pos, map: Pos, screen: Pos) -> Pos {
    Pos {
        x: (-clamp_low_high(pos.x - div_trunc(screen.x as int, 2), map.x - screen.x)) as isize,
        y: (-clamp_low_high(pos.y - div_trunc(screen.y as int, 2), map.y - screen.y)) as isize,
    }
}

/// A camera: the offset it is panned to, the map dimensions and the screen dimensions.
///
/// The map may be smaller than the screen; the camera then favors the bottom right corner.
pub struct Camera {
    pub pos: Pos,
    pub(crate) map: Pos,
    pub(crate) screen: Pos,
}

impl Camera {
    /// The offset the camera is panned to (its `pos` field).
    pub closed spec fn offset(&self) -> Pos {
        self.pos
    }

    /// The offset is the `pos` field.
    pub(crate) proof fn lemma_offset(&self)
        ensures
            self.offset() == self.pos,
    {
    }

    /// The map dimensions.
    pub closed spec fn map_dim(&self) -> Pos {
        self.map
    }

    /// The screen dimensions.
    pub closed spec fn screen_dim(&self) -> Pos {
        self.screen
    }

    /// `pos`, shifted by the camera offset, lands on the screen.
    pub open spec fn sees(&self, pos: Pos) -> bool {
        &&& 0 <= pos.x + self.offset().x < self.screen_dim().x
        &&& 0 <= pos.y + self.offset().y < self.screen_dim().y
    }

    /// Check if a `Pos` is in the camera, i.e. should be rendered.
    pub fn is_in_camera(&self, pos: Pos) -> (b: bool)
        requires
            isize::MIN <= pos.x + self.offset().x <= isize::MAX,
            isize::MIN <= pos.y + self.offset().y <= isize::MAX,
        ensures
            b == self.sees(pos),
    {
        let npos = pos + self.pos;
        if npos.x >= 0 && npos.x < self.screen.x && npos.y >= 0 && npos.y < (self.screen.y) {
            true
        } else {
            false
        }
    }

    /// Move the camera over a position: center it there as far as the map allows.
    pub fn move_to(&mut self, pos: Pos)
        requires
            isize::MIN <= pos.x - div_trunc(old(self).screen_dim().x as int, 2) <= isize::MAX,
            isize::MIN <= pos.y - div_trunc(old(self).screen_dim().y as int, 2) <= isize::MAX,
            isize::MIN < old(self).map_dim().x - old(self).screen_dim().x <= isize::MAX,
            isize::MIN < old(self).map_dim().y - old(self).screen_dim().y <= isize::MAX,
        ensures
            final(self).map_dim() == old(self).map_dim(),
            final(self).screen_dim() == old(self).screen_dim(),
            final(self).offset() == camera_offset(pos, old(self).map_dim(), old(self).screen_dim()),
    {
        let mut new_pos = pos;
        new_pos = new_pos - Pos::new(self.screen.x / 2, (self.screen.y) / 2);
        if new_pos.x < 0 {
            new_pos.x = 0;
        }
        if new_pos.y < 0 {
            new_pos.y = 0;
        }
        if new_pos.x > self.map.x - self.screen.x {
            new_pos.x = self.map.x - self.screen.x;
        }
        if new_pos.y > self.map.y - self.screen.y {
            new_pos.y = self.map.y - self.screen.y;
        }
        self.pos = new_pos.neg();
    }

    /// Return a new `Camera` at the origin.
    pub fn new(map: Pos, screen: Pos) -> (c: Camera)
        ensures
            c.offset() == (Pos { x: 0, y: 0 }),
            c.map_dim() == map,
            c.screen_dim() == screen,
    {
        Camera { pos: Pos::origin(), map: map, screen: screen }
    }
}

/// Away from the map's edges the camera centers its view: once moved over `pos`, the
/// camera draws `pos` at the screen's middle column and row (half the screen's size,
/// rounded down), on each axis where the map leaves room for that.
pub proof fn lemma_move_to_centers(pos: Pos, map: Pos, screen: Pos)
    requires
        0 <= screen.x,
        0 <= screen.y,
    ensures
        screen.x / 2 <= pos.x && pos.x - screen.x / 2 <= map.x - screen.x
            ==> pos.x + camera_offset(pos, map, screen).x == screen.x / 2,
        screen.y / 2 <= pos.y && pos.y - screen.y / 2 <= map.y - screen.y
            ==> pos.y + camera_offset(pos, map, screen).y == screen.y / 2,
{
}

/// When the screen fits in the map, a camera moved over a point of the map keeps its view
/// inside the map and has that point in view.
pub proof fn lemma_move_to_tracks(pos: Pos, map: Pos, screen: Pos)
    requires
        1 <= screen.x <= map.x,
        1 <= screen.y <= map.y,
        0 <= pos.x < map.x,
        0 <= pos.y < map.y,
    ensures
        0 <= -camera_offset(pos, map, screen).x <= map.x - screen.x,
        0 <= -camera_offset(pos, map, screen).y <= map.y - screen.y,
        0 <= pos.x + camera_offset(pos, map, screen).x < screen.x,
        0 <= pos.y + camera_offset(pos, map, screen).y < screen.y,
{
}

} // verus!
