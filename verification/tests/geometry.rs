use ratgames::geometry::{Point, Rect, Size};

#[test]
fn area_is_width_times_height() {
    assert_eq!(Size::new(256, 240).area(), 61_440);
}

#[test]
fn size_contains_only_the_half_open_box() {
    let s = Size::new(4, 3);
    assert!(s.contains(Point::new(0, 0)));
    assert!(s.contains(Point::new(3, 2)));
    assert!(!s.contains(Point::new(4, 0)));
    assert!(!s.contains(Point::new(0, 3)));
    assert!(!s.contains(Point::new(-1, 0)));
}

#[test]
fn rect_contains_respects_offset_origin() {
    let r = Rect::new(Point::new(10, 20), Size::new(5, 5));
    assert!(r.contains(Point::new(10, 20)));
    assert!(r.contains(Point::new(14, 24)));
    assert!(!r.contains(Point::new(15, 20)));
    assert!(!r.contains(Point::new(9, 20)));
}

#[test]
fn rect_edges_are_origin_plus_extent() {
    let r = Rect::new(Point::new(-3, 7), Size::new(5, 2));
    assert_eq!(r.right(), 2);
    assert_eq!(r.bottom(), 9);
    assert_eq!(Rect::from_size(Size::new(1, 1)).origin, Point::origin());
}
