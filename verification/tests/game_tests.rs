use edgequest::game::dungeon::simplex::Simplex;
use edgequest::game::object::pos::Pos;
use edgequest::game::{floor_tiles, keypress_move, player_step, Camera};
use edgequest::object::entity::Color;

#[test]
fn game_pos() {
    assert_eq!(Pos::new(1, 2) + Pos::new(3, 4), Pos::new(4, 6));
    assert_eq!(Pos::new(1, 2) - Pos::new(3, 4), Pos::new(-2, -2));
    assert_eq!(Pos::origin(), Pos { x: 0, y: 0 });
}

#[test]
fn game_camera() {
    let c = Camera::new(Pos::new(100, 50), Pos::new(40, 20));
    assert!(c.is_in_camera(Pos::new(0, 0)));
    assert!(c.is_in_camera(Pos::new(39, 19)));
    assert!(!c.is_in_camera(Pos::new(40, 19)));
    assert!(!c.is_in_camera(Pos::new(-1, 0)));
}

#[test]
fn keys() {
    assert_eq!(keypress_move('h'), Some((-1, 0)));
    assert_eq!(keypress_move('j'), Some((0, 1)));
    assert_eq!(keypress_move('k'), Some((0, -1)));
    assert_eq!(keypress_move('l'), Some((1, 0)));
    assert_eq!(keypress_move('y'), Some((-1, -1)));
    assert_eq!(keypress_move('u'), Some((1, -1)));
    assert_eq!(keypress_move('b'), Some((-1, 1)));
    assert_eq!(keypress_move('n'), Some((1, 1)));
    assert_eq!(keypress_move('q'), None);
}

#[test]
fn simplex_tables() {
    let mut s = Simplex::new();
    assert_eq!(s.grad3.len(), 12);
    assert_eq!(s.grad3[5], vec![-1, 0, 1]);
    assert!(s.perm.is_empty());
    s.seed();
    assert_eq!(s.perm.len(), 512);
    for i in 0..256 {
        assert_eq!(s.perm[i], s.perm[i + 256]);
    }
    let first = s.perm.clone();
    s.seed();
    assert_eq!(s.perm.len(), 512);
    let _ = first;
}

#[test]
fn blocking_tiles_stop_the_player() {
    let here = Pos::new(5, 5);
    let wall_east = vec![(Pos::new(6, 5), true), (Pos::new(4, 5), false)];
    assert_eq!(player_step(here, 'l', &wall_east), here);
    assert_eq!(player_step(here, 'h', &wall_east), Pos::new(4, 5));
    assert_eq!(player_step(here, 'n', &wall_east), Pos::new(6, 6));
    assert_eq!(player_step(here, 'x', &wall_east), here);
    assert_eq!(player_step(here, 'k', &vec![]), Pos::new(5, 4));
}

#[test]
fn simplex_corner_gradients() {
    let mut s = Simplex::new();
    s.perm = (0..512).map(|k: u32| ((k * 7 + 3) % 256) as u8).collect();
    assert_eq!(s.corner_gradients(3, 5, true), (10, 5, 6));
    assert_eq!(s.corner_gradients(3, 5, false), (10, 11, 6));
    assert_eq!(s.corner_gradients(-1, 300, true), (5, 0, 1));
    assert_eq!(s.corner_gradients(-1, 300, false), (5, 6, 1));
}

#[test]
fn game_camera_keeps_the_player_in_view() {
    for px in 0..10 {
        for py in 0..10 {
            let mut c = Camera::new(Pos::new(10, 10), Pos::new(4, 4));
            c.move_to(Pos::new(px, py));
            assert!(c.is_in_camera(Pos::new(px, py)));
        }
    }
}

#[test]
fn simplex_seed_with_lays_the_bytes_out_twice() {
    let mut s = Simplex::new();
    let p: Vec<u8> = (0..256).map(|k: u32| (255 - k) as u8).collect();
    s.seed_with(&p);
    assert_eq!(s.perm.len(), 512);
    assert_eq!(s.perm[0], 255);
    assert_eq!(s.perm[256], 255);
    assert_eq!(s.perm[511], 0);
    assert_eq!(s.perm[300], 211);
}

#[test]
fn floor_tiles_follow_the_cells() {
    let v = floor_tiles(&vec![vec![1, 0], vec![0, 1, 1]]);
    assert_eq!(v.len(), 5);
    let expect = [((0, 0), false), ((0, 1), true), ((1, 0), true), ((1, 1), false), ((1, 2), false)];
    for (t, ((x, y), blocks)) in v.iter().zip(expect.iter()) {
        assert_eq!((t.entity.pos.x, t.entity.pos.y), (*x, *y));
        assert_eq!(t.blocks, *blocks);
        assert_eq!(t.entity.glyph, ' ');
        assert_eq!(t.entity.fg, Color { r: 255, g: 255, b: 255 });
        let bg = if *blocks { Color { r: 33, g: 33, b: 33 } } else { Color { r: 0, g: 0, b: 0 } };
        assert_eq!(t.entity.bg, bg);
    }
}
