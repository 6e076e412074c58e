use edgequest::dungeon::corr::Corr;
use edgequest::dungeon::rect::Rect;
use edgequest::object::pos::Pos;

#[test]
fn test_corr() {
    let c = Corr::new(Pos::new(0, 1), Pos::new(1, 2));
    assert_eq!(c.start, Pos::new(0, 1));
    assert_eq!(c.end, Pos::new(1, 2));
}

#[test]
fn test_rect() {
    let r = Rect::new(10, 5, 20, 20);
    let pos = r.center();
    assert_eq!(pos, Pos::new(20, 15));
}

#[test]
fn test_rect_center() {
    let r = Rect::new(10, 5, 20, 20);
    let pos = r.center();
    assert_eq!(pos, Pos::new(20, 15));
}

#[test]
fn rect_new_keeps_fields() {
    let r = Rect::new(10, 5, 20, 20);
    assert_eq!(r.x, 10);
    assert_eq!(r.y, 5);
    assert_eq!(r.l, 20);
    assert_eq!(r.w, 20);
}

#[test]
fn rect_center_rounds_toward_zero() {
    assert_eq!(Rect::new(0, 0, 5, 7).center(), Pos::new(3, 2));
    assert_eq!(Rect::new(0, 0, -5, -7).center(), Pos::new(-3, -2));
}
