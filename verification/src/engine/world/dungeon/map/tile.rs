//! Tiles, their types, properties, biomes and scents.

use crate::engine::renderer::rgb::{rgb_add, rgb_sub, RGB};
use vstd::prelude::*;
use vstd::std_specs::cmp::PartialEqSpecImpl;
use vstd::string::StringSliceAdditionalSpecFns;

verus! {

/// The color used to darken tiles that are out of sight.
pub open spec fn spec_darken_fac() -> RGB {
    RGB(10, 10, 10)
}

/// The color used to lighten tiles that are in the field of view.
pub open spec fn spec_yellow_fac() -> RGB {
    RGB(27, 24, 22)
}

/// The color used to darken tiles that are out of sight.
#[verifier::when_used_as_spec(spec_darken_fac)]
pub fn darken_fac() -> (c: RGB)
    ensures
        c == spec_darken_fac(),
{
    RGB(10, 10, 10)
}

/// The color used to lighten tiles that are in the field of view.
#[verifier::when_used_as_spec(spec_yellow_fac)]
pub fn yellow_fac() -> (c: RGB)
    ensures
        c == spec_yellow_fac(),
{
    RGB(27, 24, 22)
}

/// Number of scent kinds a tile tracks.
pub const NUM_SCENTS: usize = 4;

/// Tile types.
#[derive(Copy, Clone, PartialEq, Eq, Debug, Structural)]
pub enum Type {
    Wall(Wall),
    Floor(Floor),
    Stair(Stair),
    TallGrass,
    Vine,
    Water,
    Unseen,
    Trap(Trap),
    Debug,
}

/// Floor types.
#[derive(Copy, Clone, PartialEq, Eq, Debug, Structural)]
pub enum Floor {
    Normal,
    Crystal,
}

/// Wall types.
#[derive(Copy, Clone, PartialEq, Eq, Debug, Structural)]
pub enum Wall {
    Normal,
    Crystal,
    Hard,
}

/// Trap types.
#[derive(Copy, Clone, PartialEq, Eq, Debug, Structural)]
pub enum Trap {
    MemoryLoss,
}

/// Stair types.
#[derive(Copy, Clone, PartialEq, Eq, Debug, Structural)]
pub enum Stair {
    DownStair(DownStair),
    UpStair(UpStair),
}

/// Down stair types.
#[derive(Copy, Clone, PartialEq, Eq, Debug, Structural)]
pub enum DownStair {
    Normal,
}

/// Up stair types.
#[derive(Copy, Clone, PartialEq, Eq, Debug, Structural)]
pub enum UpStair {
    Normal,
}

/// Tile properties.
#[derive(Copy, Clone, PartialEq, Eq, Debug, Structural)]
pub enum Props {
    Visibility(Visibility),
    Traversability(Traversability),
}

#[derive(Copy, Clone, PartialEq, Eq, Debug, Structural)]
pub enum Visibility {
    Opaque,
    Transparent,
}

#[derive(Copy, Clone, PartialEq, Eq, Debug, Structural)]
pub enum Traversability {
    Walkable,
    Blocking,
}

/// Does a tile of this type block vision?
pub open spec fn type_opaque(t: Type) -> bool {
    t is Wall || t is TallGrass
}

/// May stuff spawn on (or replace) a tile of this type?
pub open spec fn type_spawnable(t: Type) -> bool {
    t is Floor || t is Water || t is TallGrass || t is Vine
}

/// Can a tile of this type be walked on?
pub open spec fn type_walkable(t: Type) -> bool {
    t is Floor || t is Water || t is Stair || t is Trap || t is TallGrass || t is Vine
}

/// Does the tile block vision?
pub fn opaque(t: &Tile) -> (b: bool)
    ensures
        b == type_opaque(t.tiletype),
{
    match t.tiletype {
        Type::Wall(_) | Type::TallGrass => true,
        _ => false,
    }
}

/// Is it okay to spawn stuff on this tile / replace it?
pub fn spawnable(t: &Tile) -> (b: bool)
    ensures
        b == type_spawnable(t.tiletype),
{
    match t.tiletype {
        Type::Floor(_) | Type::Water | Type::TallGrass | Type::Vine => true,
        _ => false,
    }
}

/// Is the tile able to be walked on?
pub fn walkable(t: &Tile) -> (b: bool)
    ensures
        b == type_walkable(t.tiletype),
{
    match t.tiletype {
        Type::Floor(_) | Type::Water | Type::Stair(_) | Type::Trap(_) | Type::TallGrass
        | Type::Vine => true,
        _ => false,
    }
}

/// Whatever may be spawned on can be walked on, and walls block both sight and movement.
pub proof fn lemma_spawnable_walkable(t: Type)
    ensures
        type_spawnable(t) ==> type_walkable(t),
        t is Wall ==> type_opaque(t) && !type_walkable(t),
{
}

/// Sight stops only at walls and tall grass: every other kind of tile (floors, water,
/// stairs, traps, vines, unseen and debug tiles) can be seen through, and of the tiles
/// that can be walked on only tall grass blocks sight.
pub proof fn lemma_opaque_only_walls_and_grass(t: Type)
    ensures
        type_opaque(t) <==> (t is Wall || t is TallGrass),
        t is Floor || t is Water || t is Stair || t is Trap || t is Vine || t is Unseen || t is Debug ==> !type_opaque(t),
        type_walkable(t) && !(t is TallGrass) ==> !type_opaque(t),
{
}

/// Movement is blocked exactly by walls and by unseen and debug tiles; spawning needs
/// open ground: floors, water, tall grass or vines, never stairs or traps.
pub proof fn lemma_walkable_and_spawnable_kinds(t: Type)
    ensures
        !type_walkable(t) <==> (t is Wall || t is Unseen || t is Debug),
        type_spawnable(t) <==> (t is Floor || t is Water || t is TallGrass || t is Vine),
        t is Stair || t is Trap ==> type_walkable(t) && !type_spawnable(t),
{
}

/// The archetypal floor.
pub fn generic_floor() -> (t: Tile)
    ensures
        t@ == new_tile_view(
            "Generic Floor"@,
            ' ',
            RGB(0, 0, 0),
            RGB(0, 0, 0),
            Type::Floor(Floor::Normal),
        ),
{
    Tile::new("Generic Floor", ' ', RGB(0, 0, 0), RGB(0, 0, 0), Type::Floor(Floor::Normal))
}

/// The archetypal wall.
pub fn generic_wall() -> (t: Tile)
    ensures
        t@ == new_tile_view(
            "Generic Wall"@,
            ' ',
            RGB(0, 0, 0),
            RGB(0, 0, 0),
            Type::Wall(Wall::Normal),
        ),
{
    Tile::new("Generic Wall", ' ', RGB(0, 0, 0), RGB(0, 0, 0), Type::Wall(Wall::Normal))
}

/// Biomes.
#[derive(Copy, Clone, PartialEq, Eq, Debug, Structural)]
pub enum Biome {
    Dungeon,
    Crypt,
    Cave,
    Sunken,
    Crystal,
}

/// The display name of a biome.
pub open spec fn biome_name(b: Biome) -> Seq<char> {
    match b {
        Biome::Dungeon => "Dungeon"@,
        Biome::Crypt => "Crypt"@,
        Biome::Cave => "Cave"@,
        Biome::Sunken => "Sunken"@,
        Biome::Crystal => "Crystal"@,
    }
}

impl Biome {
    /// The biome's display name.
    pub fn to_string(&self) -> (s: String)
        ensures
            s@ == biome_name(*self),
    {
        match *self {
            Biome::Dungeon => String::from_str("Dungeon"),
            Biome::Crypt => String::from_str("Crypt"),
            Biome::Cave => String::from_str("Cave"),
            Biome::Sunken => String::from_str("Sunken"),
            Biome::Crystal => String::from_str("Crystal"),
        }
    }
}

/// Scent kinds. `Num` counts the kinds before it.
#[derive(Copy, Clone, PartialEq, Eq, Debug, Structural)]
pub enum Scent {
    Player,
    Insectoid,
    Canine,
    Feline,
    Num,
}

/// The display name of a scent kind.
pub open spec fn scent_name(s: Scent) -> Seq<char> {
    match s {
        Scent::Player => "Player"@,
        Scent::Insectoid => "Insectoid"@,
        Scent::Canine => "Canine"@,
        Scent::Feline => "Feline"@,
        Scent::Num => "Num - Something wrong must have happened"@,
    }
}

/// The scent kinds in order.
pub open spec fn scent_kinds() -> Seq<Scent> {
    seq![Scent::Player, Scent::Insectoid, Scent::Canine, Scent::Feline]
}

impl Scent {
    /// The scent's display name.
    pub fn to_string(&self) -> (s: String)
        ensures
            s@ == scent_name(*self),
    {
        match *self {
            Scent::Player => String::from_str("Player"),
            Scent::Insectoid => String::from_str("Insectoid"),
            Scent::Canine => String::from_str("Canine"),
            Scent::Feline => String::from_str("Feline"),
            Scent::Num => String::from_str("Num - Something wrong must have happened"),
        }
    }

    /// The scent kinds (all but `Num`), in order.
    pub fn iterator() -> (v: Vec<Scent>)
        ensures
            v@ == scent_kinds(),
    {
        let v = vec![Scent::Player, Scent::Insectoid, Scent::Canine, Scent::Feline];
        assert(v@ =~= scent_kinds());
        v
    }
}

/// A scent value of one kind on a tile.
#[derive(Copy, Clone, PartialEq, Eq, Debug, Structural)]
pub struct _Scent {
    pub val: u8,
    pub scent_type: Scent,
}

impl _Scent {
    /// Return a new `_Scent`.
    pub fn new(value: u8, scent_type: Scent) -> (s: _Scent)
        ensures
            s.val == value,
            s.scent_type == scent_type,
    {
        _Scent { val: value, scent_type: scent_type }
    }
}

/// The scents of a fresh tile: each kind in order, at zero.
pub open spec fn fresh_scents() -> Seq<_Scent> {
    scent_kinds().map_values(|s: Scent| _Scent { val: 0, scent_type: s })
}

/// An environmental entity on the map.
#[derive(Debug)]
pub struct Tile {
    pub name: &'static str,
    pub glyph: char,
    pub fg: RGB,
    pub bg: RGB,
    pub biome: Biome,
    pub scents: Vec<_Scent>,
    pub sound: u8,
    pub tiletype: Type,
    pub seen: bool,
}

/// The mathematical content of a `Tile`.
pub struct TileView {
    pub name: Seq<char>,
    pub glyph: char,
    pub fg: RGB,
    pub bg: RGB,
    pub biome: Biome,
    pub scents: Seq<_Scent>,
    pub sound: u8,
    pub tiletype: Type,
    pub seen: bool,
}

impl View for Tile {
    type V = TileView;

    open spec fn view(&self) -> TileView {
        TileView {
            name: self.name@,
            glyph: self.glyph,
            fg: self.fg,
            bg: self.bg,
            biome: self.biome,
            scents: self.scents@,
            sound: self.sound,
            tiletype: self.tiletype,
            seen: self.seen,
        }
    }
}

/// What `Tile::new` builds.
pub open spec fn new_tile_view(name: Seq<char>, glyph: char, fg: RGB, bg: RGB, tiletype: Type) -> TileView {
    TileView {
        name,
        glyph,
        fg,
        bg,
        biome: Biome::Dungeon,
        scents: fresh_scents(),
        sound: 0,
        tiletype,
        seen: false,
    }
}

/// A tile with both colors replaced.
pub open spec fn with_colors(t: TileView, fg: RGB, bg: RGB) -> TileView {
    TileView { fg, bg, ..t }
}

/// Two strings are equal exactly when their UTF-8 encodings are.
fn str_eq(a: &str, b: &str) -> (r: bool)
    ensures
        r == (a@ == b@),
{
    let ab = a.as_bytes();
    let bb = b.as_bytes();
    proof {
        vstd::utf8::encode_utf8_decode_utf8(a@);
        vstd::utf8::encode_utf8_decode_utf8(b@);
    }
    if ab.len() != bb.len() {
        return false;
    }
    let mut i: usize = 0;
    while i < ab.len()
        invariant
            ab@ == a.spec_bytes(),
            bb@ == b.spec_bytes(),
            ab@.len() == bb@.len(),
            i <= ab@.len(),
            forall|k: int| 0 <= k < i ==> ab@[k] == bb@[k],
        decreases ab@.len() - i,
    {
        if ab[i] != bb[i] {
            return false;
        }
        i = i + 1;
    }
    assert(ab@ =~= bb@);
    true
}

/// Two scent lists are equal element by element.
fn scents_eq(a: &Vec<_Scent>, b: &Vec<_Scent>) -> (r: bool)
    ensures
        r == (a@ == b@),
{
    if a.len() != b.len() {
        return false;
    }
    let mut i: usize = 0;
    while i < a.len()
        invariant
            a@.len() == b@.len(),
            i <= a@.len(),
            forall|k: int| 0 <= k < i ==> a@[k] == b@[k],
        decreases a@.len() - i,
    {
        if a[i].val != b[i].val || a[i].scent_type != b[i].scent_type {
            return false;
        }
        i = i + 1;
    }
    assert(a@ =~= b@);
    true
}

/// Tiles are equal when all their fields are (names compared as text).
impl PartialEq for Tile {
    fn eq(&self, other: &Tile) -> (r: bool) {
        str_eq(self.name, other.name) && self.glyph == other.glyph && self.fg == other.fg && self.bg
            == other.bg && self.biome == other.biome && scents_eq(&self.scents, &other.scents)
            && self.sound == other.sound && self.tiletype == other.tiletype && self.seen == other.seen
    }
}

impl PartialEqSpecImpl for Tile {
    open spec fn obeys_eq_spec() -> bool {
        true
    }

    open spec fn eq_spec(&self, other: &Tile) -> bool {
        self@ == other@
    }
}

impl Clone for Tile {
    fn clone(&self) -> (t: Tile)
        ensures
            t@ == self@,
    {
        let scents = self.scents.clone();
        assert(scents@ =~= self.scents@);
        Tile {
            name: self.name,
            glyph: self.glyph,
            fg: self.fg,
            bg: self.bg,
            biome: self.biome,
            scents,
            sound: self.sound,
            tiletype: self.tiletype,
            seen: self.seen,
        }
    }
}

impl Tile {
    /// Return a new `Tile`.
    pub fn new(name: &'static str, glyph: char, fg: RGB, bg: RGB, tiletype: Type) -> (t: Tile)
        ensures
            t@ == new_tile_view(name@, glyph, fg, bg, tiletype),
    {
        let kinds = Scent::iterator();
        let mut sv: Vec<_Scent> = Vec::new();
        let mut i: usize = 0;
        while i < kinds.len()
            invariant
                kinds@ == scent_kinds(),
                i <= kinds@.len(),
                sv@ =~= fresh_scents().take(i as int),
            decreases kinds@.len() - i,
        {
            sv.push(_Scent::new(0, kinds[i]));
            i = i + 1;
        }
        assert(sv@ =~= fresh_scents());
        Tile {
            name: name,
            glyph: glyph,
            fg: fg,
            bg: bg,
            biome: Biome::Dungeon,
            scents: sv,
            sound: 0,
            tiletype: tiletype,
            seen: false,
        }
    }

    /// A copy of the tile with `factor` added (capped) to both colors.
    pub fn amplify_col(&mut self, factor: RGB) -> (t: Tile)
        ensures
            *final(self) == *old(self),
            t@ == with_colors(old(self)@, rgb_add(old(self).fg, factor), rgb_add(old(self).bg, factor)),
    {
        let mut t = self.clone();
        t.fg = self.fg + factor;
        t.bg = self.bg + factor;
        t
    }

    /// A copy of the tile with `factor` subtracted (floored) from both colors.
    pub fn reduce_col(&mut self, factor: RGB) -> (t: Tile)
        ensures
            *final(self) == *old(self),
            t@ == with_colors(old(self)@, rgb_sub(old(self).fg, factor), rgb_sub(old(self).bg, factor)),
    {
        let mut t = self.clone();
        t.fg = self.fg - factor;
        t.bg = self.bg - factor;
        t
    }

    /// A darker copy of the tile.
    pub fn darken(&mut self) -> (t: Tile)
        ensures
            *final(self) == *old(self),
            t@ == with_colors(old(self)@, rgb_sub(old(self).fg, darken_fac()), rgb_sub(old(self).bg, darken_fac())),
    {
        self.reduce_col(darken_fac())
    }

    /// A more yellowish copy of the tile.
    pub fn yellowish(&mut self) -> (t: Tile)
        ensures
            *final(self) == *old(self),
            t@ == with_colors(old(self)@, rgb_add(old(self).fg, yellow_fac()), rgb_add(old(self).bg, yellow_fac())),
    {
        self.amplify_col(yellow_fac())
    }

    /// The background color.
    pub fn get_bg(&self) -> (c: RGB)
        ensures
            c == self.bg,
    {
        self.bg
    }

    /// The foreground color.
    pub fn get_fg(&self) -> (c: RGB)
        ensures
            c == self.fg,
    {
        self.fg
    }

    /// The glyph.
    pub fn get_glyph(&self) -> (c: char)
        ensures
            c == self.glyph,
    {
        self.glyph
    }

    /// The name.
    pub fn get_name(&self) -> (s: &'static str)
        ensures
            s == self.name,
    {
        self.name
    }

    /// Set the background color from a tuple.
    pub fn set_bg(&mut self, bg: (u8, u8, u8))
        ensures
            final(self)@ == (TileView { bg: RGB(bg.0, bg.1, bg.2), ..old(self)@ }),
    {
        self.bg = RGB::from_tup(bg);
    }

    /// Set the foreground color from a tuple.
    pub fn set_fg(&mut self, fg: (u8, u8, u8))
        ensures
            final(self)@ == (TileView { fg: RGB(fg.0, fg.1, fg.2), ..old(self)@ }),
    {
        self.fg = RGB::from_tup(fg);
    }

    /// Set the glyph.
    pub fn set_glyph(&mut self, glyph: char)
        ensures
            final(self)@ == (TileView { glyph, ..old(self)@ }),
    {
        self.glyph = glyph;
    }

    /// Set the name.
    pub fn set_name(&mut self, name: &'static str)
        ensures
            final(self)@ == (TileView { name: name@, ..old(self)@ }),
    {
        self.name = name;
    }
}

} // verus!

verus! {

impl crate::engine::renderer::Renderable for Tile {
    fn get_bg(&self) -> (c: RGB)
        ensures
            c == self.bg,
    {
        self.bg
    }

    fn get_fg(&self) -> (c: RGB)
        ensures
            c == self.fg,
    {
        self.fg
    }

    fn get_glyph(&self) -> (c: char)
        ensures
            c == self.glyph,
    {
        self.glyph
    }

    fn get_id(&self) -> (s: &'static str)
        ensures
            s == self.name,
    {
        self.name
    }

    fn set_bg(&mut self, bg: RGB)
        ensures
            final(self)@ == (TileView { bg, ..old(self)@ }),
    {
        self.bg = bg;
    }

    fn set_fg(&mut self, fg: RGB)
        ensures
            final(self)@ == (TileView { fg, ..old(self)@ }),
    {
        self.fg = fg;
    }

    fn set_glyph(&mut self, glyph: char)
        ensures
            final(self)@ == (TileView { glyph, ..old(self)@ }),
    {
        self.glyph = glyph;
    }

    fn set_id(&mut self, name: &'static str)
        ensures
            final(self)@ == (TileView { name: name@, ..old(self)@ }),
    {
        self.name = name;
    }
}

} // verus!
