use edgequest::engine::renderer::rgb::RGB;
use edgequest::engine::world::dungeon::builder::Structure as Builder;
use edgequest::engine::world::dungeon::filter::stain::{Stain, StainType, VISCERA_DIAMETER};
use edgequest::engine::world::dungeon::filter::structure::{parse_structure, prefab_valid, Structure};
use edgequest::engine::world::dungeon::filter::viscera::{Viscera, RADIUS};
use edgequest::engine::world::dungeon::filter::{Filter, Simple};
use edgequest::engine::world::dungeon::map::tile::{generic_floor, generic_wall, Floor, Type, Wall};
use edgequest::engine::world::dungeon::map::{Grid, Tile};

fn grid_of(w: usize, h: usize, t: &Tile) -> Grid<Tile> {
    let mut g = Vec::new();
    for _ in 0..w {
        let mut col = Vec::new();
        for _ in 0..h {
            col.push(t.clone());
        }
        g.push(col);
    }
    g
}

fn simple_floor() -> Tile {
    Tile::new("Floor", ' ', RGB(7, 7, 7), RGB(0, 0, 0), Type::Floor(Floor::Normal))
}

fn mixed_grid(w: usize, h: usize) -> Grid<Tile> {
    let mut g = grid_of(w, h, &generic_wall());
    for x in 0..w {
        for y in 0..h {
            if (x + 2 * y) % 3 == 0 {
                g[x][y] = generic_floor();
            } else if (x + y) % 7 == 0 {
                g[x][y] = Tile::new("Water", '~', RGB(1, 2, 3), RGB(4, 5, 6), Type::Water);
            }
        }
    }
    g
}

#[test]
fn simple_filter_carves_only_floor_inside_border() {
    for _ in 0..20 {
        let wall = generic_wall();
        let mut g = grid_of(80, 50, &wall);
        let mut s = Simple::new(&g);
        assert_eq!((s.w, s.h), (80, 50));
        s.apply(&mut g);
        assert_eq!(g.len(), 80);
        for x in 0..80 {
            assert_eq!(g[x].len(), 50);
            for y in 0..50 {
                if g[x][y] != wall {
                    assert!(g[x][y] == simple_floor());
                    assert!(x >= 1 && y >= 1 && x < 79 && y < 49);
                }
            }
        }
    }
}

#[test]
fn simple_filter_on_a_small_map_places_nothing() {
    let wall = generic_wall();
    let mut g = grid_of(5, 4, &wall);
    let before = g.clone();
    let mut s = Simple::new(&g);
    s.apply(&mut g);
    assert!(g == before);
}

#[test]
fn stain_amounts() {
    let mut f = Tile::new("F", '.', RGB(10, 10, 10), RGB(250, 10, 10), Type::Floor(Floor::Normal));
    Stain::stain_with(&mut f, StainType::Viscera, 3, 4);
    assert_eq!(f.name, "Bloody Floor");
    assert_eq!(f.fg, RGB(25, 10, 10));
    assert_eq!(f.bg, RGB(255, 10, 10));
    let mut w = Tile::new("W", '#', RGB(10, 10, 10), RGB(10, 10, 10), Type::Wall(Wall::Normal));
    let before = w.clone();
    Stain::stain_with(&mut w, StainType::Fungus, 5, 6);
    assert!(w == before);
    Stain::stain_with(&mut w, StainType::Corruption, 5, 60);
    assert_eq!(w.name, "Corrupted Wall");
    assert_eq!(w.fg, RGB(5, 5, 5));
    assert_eq!(w.bg, RGB(0, 0, 0));
    let mut g = Tile::new("F", '.', RGB(0, 0, 0), RGB(0, 0, 0), Type::Floor(Floor::Normal));
    Stain::stain_with(&mut g, StainType::Fungus, 5, 6);
    assert_eq!((g.name, g.fg, g.bg), ("Fungal Bloom", RGB(5, 0, 5), RGB(5, 0, 6)));
    Stain::stain_with(&mut g, StainType::Moss, 1, 2);
    assert_eq!((g.name, g.fg, g.bg), ("Mossy Floor", RGB(5, 1, 5), RGB(5, 2, 6)));
}

#[test]
fn stain_linear_always_stains_with_chance_one() {
    let mut g = grid_of(5, 5, &Tile::new("F", '.', RGB(200, 200, 200), RGB(200, 200, 200), Type::Floor(Floor::Normal)));
    Stain::stain_linear(3, 3, 2, &mut g, 1, StainType::Corruption);
    assert_eq!(g[2][2].name, "Corrupted Floor");
    assert!(g[2][2].fg.0 > 100 && g[2][2].fg.0 <= 200);
    assert_eq!(g[2][3].name, "F");
    let mut water = grid_of(5, 5, &Tile::new("Water", '~', RGB(0, 0, 0), RGB(0, 0, 0), Type::Water));
    let before = water.clone();
    Stain::stain_linear(3, 3, 2, &mut water, 1, StainType::Viscera);
    assert!(water == before);
}

#[test]
fn stain_squares_stay_in_their_square() {
    let mut g = mixed_grid(20, 20);
    let before = g.clone();
    Stain::add_corruption(10, 10, 4, &mut g);
    Stain::add_viscera(10, 10, 4, &mut g);
    Stain::add_moss(10, 10, 4, &mut g);
    Stain::add_fungus(10, 10, 4, &mut g);
    for x in 0..20 {
        for y in 0..20 {
            if !(8..12).contains(&x) || !(8..12).contains(&y) {
                assert!(g[x][y] == before[x][y]);
            }
        }
    }
}

#[test]
fn corruption_reaches_every_floor_and_wall_of_its_square() {
    let mut g = mixed_grid(20, 20);
    let before = g.clone();
    Stain::add_corruption(10, 10, 4, &mut g);
    for x in 8..12 {
        for y in 8..12 {
            match before[x][y].tiletype {
                Type::Floor(_) => assert_eq!(g[x][y].name, "Corrupted Floor"),
                Type::Wall(_) => assert_eq!(g[x][y].name, "Corrupted Wall"),
                _ => assert!(g[x][y] == before[x][y]),
            }
        }
    }
}

#[test]
fn stain_filter_only_recolors() {
    let mut g = mixed_grid(40, 36);
    let before = g.clone();
    let mut s = Stain::new();
    s.apply(&mut g);
    for x in 0..40 {
        for y in 0..36 {
            assert_eq!(g[x][y].tiletype, before[x][y].tiletype);
            assert_eq!(g[x][y].glyph, before[x][y].glyph);
            assert_eq!(g[x][y].scents, before[x][y].scents);
            if g[x][y].tiletype == Type::Water {
                assert!(g[x][y] == before[x][y]);
            }
        }
    }
    assert_eq!(VISCERA_DIAMETER, 5);
}

#[test]
fn viscera_amounts_and_filter() {
    let mut w = Tile::new("W", '#', RGB(0, 0, 0), RGB(0, 0, 0), Type::Wall(Wall::Normal));
    Viscera::bloody_with(&mut w, 1, 2, 3, 4);
    assert_eq!((w.fg, w.bg), (RGB(23, 2, 0), RGB(15, 4, 0)));
    let mut f = generic_floor();
    Viscera::bloody_with(&mut f, 1, 2, 3, 4);
    assert_eq!((f.fg, f.bg), (RGB(1, 2, 0), RGB(3, 4, 0)));
    assert_eq!(f.name, "Generic Floor");

    let mut g = mixed_grid(30, 12);
    let before = g.clone();
    let mut v = Viscera::new();
    v.apply(&mut g);
    for x in 0..30 {
        for y in 0..12 {
            assert_eq!(g[x][y].tiletype, before[x][y].tiletype);
            assert_eq!(g[x][y].name, before[x][y].name);
            if x >= 30 - RADIUS || y >= 12 - RADIUS || g[x][y].tiletype == Type::Water {
                assert!(g[x][y] == before[x][y]);
            }
        }
    }
}

#[test]
fn prefab_parsing() {
    let text: Vec<char> = "#.\"\n..#\nrest".chars().collect();
    assert!(!prefab_valid(&text));
    let text: Vec<char> = "#.\"\n..#\n##".chars().collect();
    assert!(prefab_valid(&text));
    let g = parse_structure(&text);
    assert_eq!(g.len(), 2);
    assert_eq!(g[0].len(), 3);
    assert_eq!(g[0][0].name, "Wall");
    assert_eq!(g[0][1].name, "Floor");
    assert_eq!(g[0][2].name, "Tall Grass");
    assert_eq!(g[0][2].glyph, '"');
    assert_eq!(g[1][2].bg, RGB(33, 33, 33));
    let jagged: Vec<char> = "##\n#\n".chars().collect();
    assert!(!prefab_valid(&jagged));
    let no_line: Vec<char> = "###".chars().collect();
    assert!(!prefab_valid(&no_line));
}

fn count_named(g: &Grid<Tile>, name: &str) -> usize {
    g.iter().flatten().filter(|t| t.name == name).count()
}

#[test]
fn structure_placement_keeps_shape() {
    let text: Vec<char> = "\"\"\"\n\"..\n".chars().collect();
    for _ in 0..30 {
        let mut g = grid_of(20, 20, &generic_wall());
        let mut s = Structure::new();
        s.add_rand_struct(&mut g, &text);
        let grass = count_named(&g, "Tall Grass");
        let floor = count_named(&g, "Floor");
        assert!((grass, floor) == (0, 0) || (grass, floor) == (4, 2));
        for x in 0..20 {
            assert!(g[x][19].name == "Generic Wall");
            assert!(g[19][x].name == "Generic Wall");
        }
    }
}

#[test]
fn structure_builder() {
    let text: Vec<char> = "..\n..\n".chars().collect();
    let g = grid_of(10, 10, &generic_wall());
    let mut b = Builder::new(g);
    let first = b.build(&text);
    let floors = count_named(&first, "Floor");
    assert!(floors == 0 || floors == 4);
    for k in 1..10 {
        let out = b.build(&text);
        assert!(count_named(&out, "Floor") <= 4 * (k + 1));
        assert!(out[9].iter().all(|t| t.name == "Generic Wall"));
        assert!(out.iter().all(|col| col[9].name == "Generic Wall"));
    }
}

#[test]
fn simple_filter_floor_is_connected() {
    for _ in 0..20 {
        let wall = generic_wall();
        let mut g = grid_of(90, 60, &wall);
        let mut s = Simple::new(&g);
        s.apply(&mut g);
        let floors: Vec<(usize, usize)> = (0..90)
            .flat_map(|x| (0..60).map(move |y| (x, y)))
            .filter(|&(x, y)| g[x][y] != wall)
            .collect();
        if floors.is_empty() {
            continue;
        }
        let mut seen = vec![vec![false; 60]; 90];
        let mut stack = vec![floors[0]];
        seen[floors[0].0][floors[0].1] = true;
        let mut reached = 0;
        while let Some((x, y)) = stack.pop() {
            reached += 1;
            let around = [(x + 1, y), (x - 1, y), (x, y + 1), (x, y - 1)];
            for &(nx, ny) in around.iter() {
                if nx < 90 && ny < 60 && !seen[nx][ny] && g[nx][ny] != wall {
                    seen[nx][ny] = true;
                    stack.push((nx, ny));
                }
            }
        }
        assert_eq!(reached, floors.len());
    }
}

#[test]
fn place_rooms_keeps_fitting_draws() {
    let wall = generic_wall();
    let mut g = grid_of(30, 20, &wall);
    let mut s = Simple::new(&g);
    s.place_rooms(&mut g, &vec![(1, 1, 5, 5), (20, 10, 5, 15), (10, 2, 6, 5)]);
    let mut floors = 0;
    for x in 0..30 {
        for y in 0..20 {
            let in_first = (1..6).contains(&x) && (1..6).contains(&y);
            let in_second = (10..15).contains(&x) && (2..8).contains(&y);
            if in_first || in_second {
                assert!(g[x][y] == simple_floor());
                floors += 1;
            } else {
                assert!(g[x][y] == wall);
            }
        }
    }
    assert_eq!(floors, 55);
}

#[test]
fn structure_at_a_given_place_and_turn() {
    let text: Vec<char> = "#.\n\"\"\n\"\"\n".chars().collect();
    // columns: [#, .], [", "], [", "]: 3 wide, 2 high
    let mut g = grid_of(10, 10, &generic_floor());
    let mut s = Structure::new();
    s.add_struct_at(&mut g, &text, 0, 2, 3);
    assert_eq!(g[2][3].name, "Wall");
    assert_eq!(g[2][4].name, "Floor");
    assert_eq!(g[3][3].name, "Tall Grass");
    assert_eq!(g[4][4].name, "Tall Grass");
    assert_eq!(g[5][3].name, "Generic Floor");
    let mut t = grid_of(10, 10, &generic_floor());
    // one quarter turn: 2 wide, 3 high; column x of the result is row x read from the last column
    s.add_struct_at(&mut t, &text, 1, 0, 0);
    assert_eq!(t[0][0].name, "Tall Grass");
    assert_eq!(t[0][2].name, "Wall");
    assert_eq!(t[1][2].name, "Floor");
    assert_eq!(t[2][0].name, "Generic Floor");
    let mut u = grid_of(10, 10, &generic_floor());
    let before = u.clone();
    s.add_struct_at(&mut u, &text, 0, 7, 0);
    assert!(u == before);
    let mut v = grid_of(10, 10, &generic_floor());
    s.add_struct_at(&mut v, &text, 4 - 1, 1, 1);
    let mut w = grid_of(10, 10, &generic_floor());
    s.add_struct_at(&mut w, &text, 1, 1, 1);
    assert!(count_named(&v, "Tall Grass") == 4 && count_named(&w, "Tall Grass") == 4);
}

#[test]
fn structure_is_placed_when_there_is_room() {
    let text: Vec<char> = "\"\"\"\n\"..\n".chars().collect();
    for _ in 0..30 {
        let mut g = grid_of(20, 20, &generic_wall());
        let mut s = Structure::new();
        s.add_rand_struct(&mut g, &text);
        assert_eq!((count_named(&g, "Tall Grass"), count_named(&g, "Floor")), (4, 2));
    }
}

#[test]
fn builder_places_when_there_is_room() {
    let text: Vec<char> = "..\n..\n".chars().collect();
    for _ in 0..20 {
        let mut b = Builder::new(grid_of(10, 10, &generic_wall()));
        let out = b.build(&text);
        assert_eq!(count_named(&out, "Floor"), 4);
    }
}

#[test]
fn stain_filter_keeps_edges_and_corrupts_a_square() {
    for _ in 0..10 {
        let mut g = grid_of(40, 36, &generic_floor());
        let before = g.clone();
        let mut s = Stain::new();
        s.apply(&mut g);
        for x in 0..40 {
            for y in 0..36 {
                if x < 3 || x >= 37 || y < 3 || y >= 33 {
                    assert!(g[x][y] == before[x][y]);
                }
            }
        }
        let marked = count_named(&g, "Corrupted Floor") + count_named(&g, "Bloody Floor");
        assert!(marked >= 81);
    }
}

#[test]
fn blood_only_reddens_away_from_edges() {
    for _ in 0..10 {
        let mut g = mixed_grid(30, 20);
        let before = g.clone();
        let mut v = Viscera::new();
        v.apply(&mut g);
        for x in 0..30 {
            for y in 0..20 {
                let (o, n) = (&before[x][y], &g[x][y]);
                if x < 2 || x >= 26 || y < 2 || y >= 16 {
                    assert!(n == o);
                }
                assert!(n.fg.0 >= o.fg.0 && n.fg.1 >= o.fg.1 && n.fg.2 == o.fg.2);
                assert!(n.bg.0 >= o.bg.0 && n.bg.1 >= o.bg.1 && n.bg.2 == o.bg.2);
            }
        }
    }
}

#[test]
fn longer_prefab_lines_are_cut_to_the_first() {
    let text: Vec<char> = "##\n###\n".chars().collect();
    assert!(prefab_valid(&text));
    let short: Vec<char> = "###\n##\n".chars().collect();
    assert!(!prefab_valid(&short));
    for _ in 0..20 {
        let mut g = grid_of(20, 20, &generic_floor());
        let mut s = Structure::new();
        s.add_rand_struct(&mut g, &text);
        assert_eq!(count_named(&g, "Wall"), 4);
    }
}

#[test]
fn builder_build_at_places_at_the_given_corner() {
    let text: Vec<char> = "..\n..\n".chars().collect();
    let mut b = Builder::new(grid_of(10, 10, &generic_wall()));
    let out = b.build_at(&text, 3, 4);
    assert_eq!(count_named(&out, "Floor"), 4);
    for (x, y) in [(3, 4), (3, 5), (4, 4), (4, 5)] {
        assert_eq!(out[x][y].name, "Floor");
    }
    let out = b.build_at(&text, 8, 1);
    assert_eq!(count_named(&out, "Floor"), 4);
    let out = b.build_at(&text, 7, 7);
    assert_eq!(count_named(&out, "Floor"), 8);
}
