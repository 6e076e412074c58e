use edgequest::object::entity::{Color, Entity as ColoredEntity};
use edgequest::object::tile::Tile;
use edgequest::object::pos::Pos as P;
use edgequest::object::{Entity, Pos};

#[test]
fn test_pos() {
    let a = Pos { x: 4, y: -3 };
    let b = Pos { x: 1, y: 1 };
    assert_eq!(a + b, Pos { x: 5, y: -2 });

    let c = Pos { x: 0, y: 5 };
    let d = Pos { x: -2, y: 1 };
    assert_eq!(c - d, Pos { x: 2, y: 4 });
}

#[test]
fn test_entity() {
    let mut a = Entity { pos: Pos { x: 1, y: 2 }, ch: '@' };
    assert_eq!(a.pos, Pos { x: 1, y: 2 });
    assert_eq!(a.ch, '@');

    a.move_cart(2, 1);
    assert_eq!(a.pos, Pos { x: 3, y: 3 });

    a.move_cart(-5, -2);
    assert_eq!(a.pos, Pos { x: -2, y: 1 });

    a.set_pos(Pos { x: 0, y: 0 });
    assert_eq!(a.pos, Pos { x: 0, y: 0 });

    a.set_char('!');
    assert_eq!(a.ch, '!');
}

#[test]
fn entity_moves_and_setters() {
    let mut a = Entity { pos: Pos { x: 1, y: 2 }, ch: '@' };
    assert_eq!(a.pos, Pos { x: 1, y: 2 });
    assert_eq!(a.ch, '@');

    a.move_cart(2, 1);
    assert_eq!(a.pos, Pos { x: 3, y: 3 });

    a.move_cart(-5, -2);
    assert_eq!(a.pos, Pos { x: -2, y: 1 });

    a.move_pos(Pos { x: 2, y: -1 });
    assert_eq!(a.pos, Pos { x: 0, y: 0 });

    a.set_pos(Pos { x: 7, y: 8 });
    assert_eq!(a.pos, Pos { x: 7, y: 8 });

    a.set_char('!');
    assert_eq!(a.ch, '!');
    assert_eq!(a.pos, Pos { x: 7, y: 8 });
}

#[test]
fn colored_entity_and_tile() {
    let white = Color { r: 255, g: 255, b: 255 };
    let black = Color { r: 0, g: 0, b: 0 };
    let mut e = ColoredEntity::new(P::new(40, 25), '@', white, black);
    e.move_cart(-1, 1);
    assert_eq!(e.pos, P::new(39, 26));
    e.move_pos(P::new(1, -1));
    assert_eq!(e.pos, P::new(40, 25));
    e.set_char('x');
    assert_eq!(e.glyph, 'x');
    e.set_pos(P::new(0, 0));
    assert_eq!(e, ColoredEntity { pos: P::new(0, 0), glyph: 'x', fg: white, bg: black });

    let t = Tile::new(P::new(3, 4), ' ', white, Color { r: 33, g: 33, b: 33 }, true);
    assert!(t.blocks);
    assert_eq!(t.entity.pos, P::new(3, 4));
    assert_eq!(t.entity.bg, Color { r: 33, g: 33, b: 33 });
}

#[test]
fn object_pos_new_adds_and_subtracts() {
    assert_eq!(P::new(4, -3) + P::new(1, 1), P::new(5, -2));
    assert_eq!(P::new(0, 5) - P::new(-2, 1), P::new(2, 4));
}

#[test]
fn tile_map_holds_what_it_is_given() {
    let e = Entity { pos: Pos { x: 1, y: 2 }, ch: '@' };
    let m = edgequest::map::TileMap::new(3, 4, vec![], vec![e]);
    assert_eq!((m.length, m.height), (3, 4));
    assert!(m.tile_vec.is_empty());
    assert_eq!(m.entity_vec, vec![e]);
}
