use edgequest::engine::renderer::camera::Camera;
use edgequest::engine::renderer::rgb::RGB;
use edgequest::engine::renderer::{non_player_scent, Renderable, Renderer};
use edgequest::engine::world::dungeon::automata::drunkards_walk::{walk, walk_dice};
use edgequest::engine::world::dungeon::automata::{get_d4, get_d8, get_d9, place_inbounds, unwrap_pos};
use edgequest::engine::world::dungeon::builder::construct::Corr;
use edgequest::engine::world::dungeon::map::construct::Rect;
use edgequest::engine::world::dungeon::map::grid::{clone_grid, grid_height, grid_width, index, index_set};
use edgequest::engine::world::dungeon::map::tile::{
    darken_fac, generic_floor, generic_wall, opaque, spawnable, walkable, yellow_fac, Biome, Floor, Scent,
    Stair, Type, UpStair, Wall, _Scent, NUM_SCENTS,
};
use edgequest::engine::world::dungeon::map::tile::{DownStair, Trap};
use edgequest::engine::world::dungeon::map::{Grid, Pos, Tile};
use edgequest::engine::world::{bloom_scents, is_valid_pos, lose_memory, player_turn, test_empty, SC_INC};

fn grid_of(w: usize, h: usize, t: &Tile) -> Grid<Tile> {
    let mut g = Vec::new();
    for _ in 0..w {
        let mut col = Vec::new();
        for _ in 0..h {
            col.push(t.clone());
        }
        g.push(col);
    }
    g
}

#[test]
fn rgb_add_caps_and_sub_floors() {
    assert_eq!(RGB(250, 3, 100) + RGB(10, 10, 10), RGB(255, 13, 110));
    assert_eq!(RGB(5, 30, 0) - RGB(10, 10, 10), RGB(0, 20, 0));
    let mut c = RGB(250, 3, 100);
    c += RGB(10, 10, 10);
    assert_eq!(c, RGB(255, 13, 110));
    c -= RGB(255, 20, 10);
    assert_eq!(c, RGB(0, 0, 100));
}

#[test]
fn rgb_tuples_and_channels() {
    let c = RGB::from_tup((1, 2, 3));
    assert_eq!(c, RGB(1, 2, 3));
    assert_eq!(c.to_tup(), (1, 2, 3));
    assert_eq!((c.r(), c.g(), c.b()), (1, 2, 3));
}

#[test]
fn pos_constructors_and_ops() {
    assert_eq!(Pos::new(3, -4), Pos { x: 3, y: -4 });
    assert_eq!(Pos::from_usize(7, 9), Pos { x: 7, y: 9 });
    assert_eq!(Pos::from_tup((-1, 2)), Pos { x: -1, y: 2 });
    assert_eq!(Pos::from_usize_tup((5, 6)), Pos { x: 5, y: 6 });
    assert_eq!(Pos::origin(), Pos { x: 0, y: 0 });
    assert_eq!(Pos::new(1, 2) + Pos::new(3, 4), Pos::new(4, 6));
    assert_eq!(Pos::new(1, 2) - Pos::new(3, 4), Pos::new(-2, -2));
    assert_eq!(-Pos::new(1, -2), Pos::new(-1, 2));
    let mut p = Pos::new(1, 2);
    p += Pos::new(3, 4);
    assert_eq!(p, Pos::new(4, 6));
    p -= Pos::new(5, -1);
    assert_eq!(p, Pos::new(-1, 7));
}

#[test]
fn engine_rect_and_corr() {
    let r = Rect::new(10, 5, 20, 30);
    assert_eq!((r.x, r.y, r.h, r.w), (10, 5, 20, 30));
    assert_eq!(r.center(), Pos::new(25, 15));
    let c = Corr::new(Pos::new(1, 2), Pos::new(3, 4));
    assert_eq!(c.start, Pos::new(1, 2));
    assert_eq!(c.end, Pos::new(3, 4));
}

#[test]
fn tile_new_has_fresh_scents() {
    let t = Tile::new("Floor", '.', RGB(1, 2, 3), RGB(4, 5, 6), Type::Floor(Floor::Normal));
    assert_eq!(t.get_name(), "Floor");
    assert_eq!(t.get_glyph(), '.');
    assert_eq!(t.get_fg(), RGB(1, 2, 3));
    assert_eq!(t.get_bg(), RGB(4, 5, 6));
    assert_eq!(t.biome, Biome::Dungeon);
    assert_eq!(t.sound, 0);
    assert!(!t.seen);
    assert_eq!(t.scents.len(), NUM_SCENTS);
    let kinds = Scent::iterator();
    assert_eq!(kinds, vec![Scent::Player, Scent::Insectoid, Scent::Canine, Scent::Feline]);
    for i in 0..NUM_SCENTS {
        assert_eq!(t.scents[i], _Scent::new(0, kinds[i]));
    }
}

#[test]
fn tile_colors() {
    let mut t = Tile::new("T", ' ', RGB(100, 100, 100), RGB(250, 0, 5), Type::Water);
    let y = t.yellowish();
    assert_eq!(y.fg, RGB(127, 124, 122));
    assert_eq!(y.bg, RGB(255, 24, 27));
    let d = t.darken();
    assert_eq!(d.fg, RGB(90, 90, 90));
    assert_eq!(d.bg, RGB(240, 0, 0));
    assert_eq!(t.fg, RGB(100, 100, 100));
    assert_eq!(darken_fac(), RGB(10, 10, 10));
    assert_eq!(yellow_fac(), RGB(27, 24, 22));
    let a = t.amplify_col(RGB(1, 1, 1));
    assert_eq!(a.bg, RGB(251, 1, 6));
    let r = t.reduce_col(RGB(1, 1, 1));
    assert_eq!(r.bg, RGB(249, 0, 4));
}

#[test]
fn tile_setters_and_equality() {
    let mut t = generic_floor();
    assert_eq!(t.get_name(), "Generic Floor");
    let u = t.clone();
    assert!(t == u);
    t.set_name("Other");
    assert!(t != u);
    t.set_name("Generic Floor");
    assert!(t == u);
    t.set_fg((1, 2, 3));
    t.set_bg((4, 5, 6));
    t.set_glyph('#');
    assert_eq!((t.fg, t.bg, t.glyph), (RGB(1, 2, 3), RGB(4, 5, 6), '#'));
    Renderable::set_bg(&mut t, RGB(9, 9, 9));
    Renderable::set_id(&mut t, "Renamed");
    assert_eq!(Renderable::get_bg(&t), RGB(9, 9, 9));
    assert_eq!(Renderable::get_id(&t), "Renamed");
    assert_eq!(generic_wall().tiletype, Type::Wall(Wall::Normal));
}

#[test]
fn tile_predicates() {
    let wall = generic_wall();
    let floor = generic_floor();
    let stair = Tile::new("S", '<', RGB(0, 0, 0), RGB(0, 0, 0), Type::Stair(Stair::UpStair(UpStair::Normal)));
    let grass = Tile::new("G", '"', RGB(0, 0, 0), RGB(0, 0, 0), Type::TallGrass);
    assert!(opaque(&wall) && !walkable(&wall) && !spawnable(&wall));
    assert!(!opaque(&floor) && walkable(&floor) && spawnable(&floor));
    assert!(!opaque(&stair) && walkable(&stair) && !spawnable(&stair));
    assert!(opaque(&grass) && walkable(&grass) && spawnable(&grass));
}

#[test]
fn names_as_strings() {
    assert_eq!(Biome::Crypt.to_string(), "Crypt");
    assert_eq!(Scent::Canine.to_string(), "Canine");
    assert_eq!(Scent::Num.to_string(), "Num - Something wrong must have happened");
}

#[test]
fn camera_moves_and_clamps() {
    let mut c = Camera::new(Pos::new(100, 50), Pos::new(40, 20));
    assert_eq!(c.pos, Pos::new(0, 0));
    c.move_to(Pos::new(50, 25));
    assert_eq!(c.pos, Pos::new(-30, -15));
    assert!(c.is_in_camera(Pos::new(50, 25)));
    assert!(!c.is_in_camera(Pos::new(70, 25)));
    c.move_to(Pos::new(2, 2));
    assert_eq!(c.pos, Pos::new(0, 0));
    c.move_to(Pos::new(99, 49));
    assert_eq!(c.pos, Pos::new(-60, -30));
    assert!(c.is_in_camera(Pos::new(99, 49)));
}

#[test]
fn renderer_positions_and_colors() {
    let mut r = Renderer::new(Pos::new(100, 60), Pos::new(80, 50), 10, 20);
    assert!(r.fov && !r.show_scent && !r.show_sound);
    assert_eq!(r.draw_position(Pos::new(5, 5)), Some(Pos::new(5, 5)));
    assert_eq!(r.draw_position(Pos::new(59, 5)), None);
    r.move_camera(Pos::new(60, 30));
    // camera screen is 59 by 39: offset x = -(60 - 29) = -31, y = -(30 - 19) = -11
    assert_eq!(r.draw_position(Pos::new(60, 30)), Some(Pos::new(29, 19)));
    assert_eq!(r.transparent_bg(RGB(1, 1, 1)), RGB(28, 25, 23));
    r.fov = false;
    assert_eq!(r.transparent_bg(RGB(1, 1, 1)), RGB(1, 1, 1));
}

#[test]
fn renderer_lit_tiles() {
    let r = Renderer::new(Pos::new(100, 60), Pos::new(80, 50), 10, 20);
    let mut t = Tile::new("F", ' ', RGB(10, 10, 10), RGB(20, 20, 20), Type::Floor(Floor::Normal));
    assert!(r.lit_tile(&mut t, false).is_none());
    let lit = r.lit_tile(&mut t, true).unwrap();
    assert!(t.seen);
    assert!(!lit.seen);
    assert_eq!(lit.fg, RGB(37, 34, 32));
    let dark = r.lit_tile(&mut t, false).unwrap();
    assert_eq!(dark.bg, RGB(10, 10, 10));
    let mut w = Tile::new("W", ' ', RGB(0, 0, 0), RGB(0, 0, 0), Type::Water);
    let lw = r.lit_tile(&mut w, true).unwrap();
    let waters = [RGB(51, 133, 200), RGB(57, 144, 200), RGB(54, 138, 200)];
    assert!(waters.contains(&w.bg));
    assert_eq!(lw.bg, w.bg + RGB(27, 24, 22));
}

#[test]
fn renderer_overlays() {
    let r = Renderer::new(Pos::new(10, 10), Pos::new(80, 50), 10, 20);
    let mut g = grid_of(3, 2, &generic_floor());
    g[1][0].scents[3].val = 7;
    g[2][1].sound = 9;
    g[2][1].bg = RGB(4, 5, 6);
    let s = r.debug_render_scent_map(&g);
    assert!(s[0][0].is_none() && s[2][1].is_none());
    let d = s[1][0].clone().unwrap();
    assert_eq!(d.bg, RGB(57, 32, 50));
    assert_eq!(d.fg, RGB(255, 255, 255));
    assert_eq!(d.name, "Debug Scent");
    let so = r.debug_render_sound_map(&g);
    assert!(so[1][0].is_none());
    assert_eq!(so[2][1].clone().unwrap().bg, RGB(4, 5, 9));
}

#[test]
fn side_panel_scent_sum() {
    let mut t = generic_floor();
    t.scents[0].val = 100;
    t.scents[1].val = 3;
    t.scents[2].val = 4;
    t.scents[3].val = 5;
    assert_eq!(non_player_scent(&t), 12);
    t.scents[1].val = 255;
    t.scents[2].val = 255;
    t.scents[3].val = 255;
    assert_eq!(non_player_scent(&t), 765);
}

#[test]
fn grid_access() {
    let mut g = grid_of(4, 3, &generic_wall());
    assert_eq!((grid_width(&g), grid_height(&g)), (4, 3));
    index_set(&mut g, Pos::new(2, 1), generic_floor());
    assert_eq!(index(&g, Pos::new(2, 1)).tiletype, Type::Floor(Floor::Normal));
    assert_eq!(index(&g, Pos::new(1, 2)).tiletype, Type::Wall(Wall::Normal));
    let c = clone_grid(&g);
    assert!(c == g);
}

#[test]
fn automata_positions_and_dice() {
    let g = grid_of(10, 8, &generic_wall());
    let mut p = Pos::new(-5, 20);
    place_inbounds(&g, &mut p);
    assert_eq!(p, Pos::new(1, 6));
    let mut q = Pos::new(4, 3);
    place_inbounds(&g, &mut q);
    assert_eq!(q, Pos::new(4, 3));
    assert_eq!(unwrap_pos(&g, Some(Pos::new(3, 3))), Pos::new(3, 3));
    for _ in 0..100 {
        let r = unwrap_pos(&g, None);
        assert!(1 <= r.x && r.x < 8 && 1 <= r.y && r.y < 6);
        assert!((1..=4).contains(&get_d4()));
        assert!((1..=8).contains(&get_d8()));
        assert!((1..=9).contains(&get_d9()));
    }
}

#[test]
fn drunkards_walk_stays_inside_and_replaces() {
    let wall = generic_wall();
    let floor = generic_floor();
    let mut g = grid_of(12, 9, &wall);
    let rerolls: Vec<bool> = (0..200).map(|i| i % 3 == 0).collect();
    walk(&mut g, None, None, floor.clone(), &rerolls);
    let mut carved = 0;
    for x in 0..12 {
        for y in 0..9 {
            if g[x][y] != wall {
                assert!(g[x][y] == floor);
                assert!(1 <= x && x <= 10 && 1 <= y && y <= 7);
                carved += 1;
            }
        }
    }
    assert!(carved >= 1);
    let water = Tile::new("Water", '~', RGB(0, 0, 0), RGB(0, 0, 0), Type::Water);
    let before = g.clone();
    walk(&mut g, Some(Pos::new(5, 5)), Some(water), wall.clone(), &rerolls);
    assert!(g == before);
}

#[test]
fn dice_are_not_constant() {
    let mut seen = [false; 5];
    for _ in 0..400 {
        seen[get_d4()] = true;
    }
    assert!(seen[1] && seen[2] && seen[3] && seen[4]);
}

#[test]
fn spawnable_tiles_are_walkable() {
    let types = [
        Type::Wall(Wall::Normal), Type::Wall(Wall::Crystal), Type::Wall(Wall::Hard),
        Type::Floor(Floor::Normal), Type::Floor(Floor::Crystal),
        Type::Stair(Stair::UpStair(UpStair::Normal)), Type::Stair(Stair::DownStair(DownStair::Normal)),
        Type::TallGrass, Type::Vine, Type::Water, Type::Unseen, Type::Trap(Trap::MemoryLoss), Type::Debug,
    ];
    for t in types.iter() {
        let tile = Tile::new("t", ' ', RGB(0, 0, 0), RGB(0, 0, 0), *t);
        if spawnable(&tile) {
            assert!(walkable(&tile));
        }
        if let Type::Wall(_) = t {
            assert!(opaque(&tile) && !walkable(&tile));
        }
    }
}

#[test]
fn walk_with_given_dice() {
    let wall = generic_wall();
    let floor = generic_floor();
    let mut g = grid_of(6, 6, &wall);
    walk_dice(&mut g, Pos::new(2, 2), None, floor.clone(), &vec![1, 1, 3, 4, 2, 1, 1, 1]);
    let carved: Vec<(usize, usize)> = (0..6)
        .flat_map(|x| (0..6).map(move |y| (x, y)))
        .filter(|&(x, y)| g[x][y] == floor)
        .collect();
    // right, right, down, up, left, then right three times, stopped at column 4 by the border
    assert_eq!(carved, vec![(3, 2), (4, 2), (4, 3)]);
    let mut h = grid_of(6, 6, &wall);
    h[3][2] = floor.clone();
    let water = Tile::new("Water", '~', RGB(0, 0, 0), RGB(0, 0, 0), Type::Water);
    walk_dice(&mut h, Pos::new(2, 2), Some(floor.clone()), water.clone(), &vec![1, 1]);
    assert!(h[3][2] == water);
    assert!(h[4][2] == wall);
}

fn scent_of(t: &Tile, kind: Scent) -> u8 {
    t.scents.iter().find(|s| s.scent_type == kind).unwrap().val
}

#[test]
fn valid_positions_are_inside_the_border_and_walkable() {
    let mut g = grid_of(6, 5, &generic_floor());
    g[2][2] = generic_wall();
    assert!(is_valid_pos(&g, 1, 1));
    assert!(is_valid_pos(&g, 4, 3));
    assert!(!is_valid_pos(&g, 0, 2));
    assert!(!is_valid_pos(&g, 5, 2));
    assert!(!is_valid_pos(&g, 3, 4));
    assert!(!is_valid_pos(&g, -1, 2));
    assert!(!is_valid_pos(&g, 2, 2));
    assert!(!is_valid_pos(&g, 200, 2));
}

#[test]
fn scent_blooms_around_each_source() {
    let mut g = grid_of(8, 8, &generic_floor());
    g[3][3] = generic_wall();
    let before = g.clone();
    bloom_scents(&mut g, &vec![(Pos::new(2, 2), Scent::Player), (Pos::new(6, 6), Scent::Canine)]);
    assert_eq!(SC_INC, 100);
    for x in 0..8 {
        for y in 0..8 {
            let inside = x > 0 && x < 7 && y > 0 && y < 7 && !(x == 3 && y == 3);
            let near_player = (1..=3).contains(&x) && (1..=3).contains(&y);
            let near_dog = (5..=7).contains(&x) && (5..=7).contains(&y);
            assert_eq!(scent_of(&g[x][y], Scent::Player), if inside && near_player { 100 } else { 0 });
            assert_eq!(scent_of(&g[x][y], Scent::Canine), if inside && near_dog { 100 } else { 0 });
            assert_eq!(scent_of(&g[x][y], Scent::Feline), 0);
            assert_eq!(g[x][y].fg, before[x][y].fg);
            assert_eq!(g[x][y].tiletype, before[x][y].tiletype);
        }
    }
}

#[test]
fn blooming_twice_is_blooming_once() {
    let mut g = grid_of(5, 5, &generic_floor());
    bloom_scents(&mut g, &vec![(Pos::new(2, 2), Scent::Feline)]);
    let once = g.clone();
    bloom_scents(&mut g, &vec![(Pos::new(2, 2), Scent::Feline)]);
    assert!(g == once);
    bloom_scents(&mut g, &vec![]);
    assert!(g == once);
}

#[test]
fn memory_loss_forgets_every_tile() {
    let mut g = grid_of(4, 3, &generic_floor());
    g[1][1].seen = true;
    g[3][2].seen = true;
    g[0][0] = Tile::new("Trap", '^', RGB(1, 1, 1), RGB(2, 2, 2), Type::Trap(Trap::MemoryLoss));
    let before = g.clone();
    lose_memory(&mut g);
    for x in 0..4 {
        for y in 0..3 {
            assert!(!g[x][y].seen);
            assert_eq!(g[x][y].name, before[x][y].name);
            assert_eq!(g[x][y].tiletype, before[x][y].tiletype);
        }
    }
}

#[test]
fn ui_layout_and_log_rows() {
    let r = Renderer::new(Pos::new(80, 50), Pos::new(100, 60), 8, 18);
    assert_eq!(r.ui_layout(), (81, 51, 83));
    assert_eq!(r.log_row(3, 0), 57);
    assert_eq!(r.log_row(3, 2), 59);
    assert_eq!(r.log_row(8, 0), 52);
}

#[test]
fn a_turn_moves_trips_traps_and_leaves_scent() {
    let mut g = grid_of(6, 6, &generic_floor());
    g[3][3].seen = true;
    g[2][1] = Tile::new("Trap", '^', RGB(1, 1, 1), RGB(2, 2, 2), Type::Trap(Trap::MemoryLoss));
    let (p, lost) = player_turn(&mut g, Pos::new(1, 1), 'h');
    assert_eq!((p, lost), (Pos::new(1, 1), false));
    assert!(g[3][3].seen);
    assert_eq!(scent_of(&g[2][2], Scent::Player), 100);
    let (p, lost) = player_turn(&mut g, Pos::new(1, 1), 'l');
    assert_eq!((p, lost), (Pos::new(2, 1), true));
    assert!(!g[3][3].seen);
    assert_eq!(scent_of(&g[3][2], Scent::Player), 100);
    g[4][4].seen = true;
    let (p, lost) = player_turn(&mut g, Pos::new(2, 1), 'x');
    assert_eq!((p, lost), (Pos::new(2, 1), true));
    assert!(!g[4][4].seen);
    let (p, lost) = player_turn(&mut g, Pos::new(2, 1), 'j');
    assert_eq!((p, lost), (Pos::new(2, 2), false));
}

#[test]
fn emptying_the_floor() {
    let mut g = grid_of(7, 4, &generic_wall());
    g[2][2].seen = true;
    let p = test_empty(&mut g);
    assert_eq!(p, Pos::new(3, 2));
    for x in 0..7 {
        for y in 0..4 {
            assert!(g[x][y] == generic_floor());
        }
    }
}
