use navda::grabs::{anchor_location, clamp_axis, move_location, resize_size};
use navda::geometry::saturate_i32;
use navda::{Point, Rectangle, ResizeEdge, Size};

#[test]
fn move_location_adds_travel() {
    let r = move_location(Point::new(200, 150), Point::new(50, 50), Point::new(80, 20));
    assert_eq!(r, Point::new(230, 120));
}

#[test]
fn move_location_saturates() {
    let r = move_location(Point::new(i32::MAX - 1, i32::MIN + 1), Point::new(0, 0), Point::new(10, -10));
    assert_eq!(r, Point::new(i32::MAX, i32::MIN));
}

#[test]
fn resize_left_edge_grows_with_leftward_drag() {
    let r = resize_size(Size::new(400, 300), ResizeEdge::left(), Point::new(0, 0), Point::new(-50, 0), Size::new(0, 0), Size::new(0, 0));
    assert_eq!(r, Size::new(450, 300));
}

#[test]
fn resize_ignores_undragged_axis() {
    let r = resize_size(Size::new(400, 300), ResizeEdge::right(), Point::new(0, 0), Point::new(25, 90), Size::new(0, 0), Size::new(0, 0));
    assert_eq!(r, Size::new(425, 300));
}

#[test]
fn clamp_bounds() {
    assert_eq!(clamp_axis(-5, 0, 0), 1);
    assert_eq!(clamp_axis(50, 60, 0), 60);
    assert_eq!(clamp_axis(500, 60, 100), 100);
    assert_eq!(clamp_axis(i32::MAX, 0, 0), i32::MAX);
    assert_eq!(clamp_axis(70, 60, 100), 70);
}

#[test]
fn anchor_left_and_top() {
    let initial = Rectangle::from_loc_and_size(Point::new(100, 100), Size::new(400, 300));
    let r = anchor_location(Point::new(100, 100), ResizeEdge::left(), initial, Size::new(450, 300));
    assert_eq!(r, Some(Point::new(50, 100)));
    let r = anchor_location(Point::new(100, 100), ResizeEdge::top_left(), initial, Size::new(350, 250));
    assert_eq!(r, Some(Point::new(150, 150)));
    let r = anchor_location(Point::new(100, 100), ResizeEdge::bottom_right(), initial, Size::new(350, 250));
    assert_eq!(r, None);
}

#[test]
fn saturate_limits() {
    assert_eq!(saturate_i32(1 << 40), i32::MAX);
    assert_eq!(saturate_i32(-(1 << 40)), i32::MIN);
    assert_eq!(saturate_i32(-7), -7);
}

#[test]
fn rectangle_contains_and_overlaps() {
    let r = Rectangle::from_loc_and_size(Point::new(0, 0), Size::new(10, 10));
    assert!(r.contains(Point::new(0, 0)));
    assert!(!r.contains(Point::new(10, 5)));
    let o = Rectangle::from_loc_and_size(Point::new(9, 9), Size::new(5, 5));
    assert!(r.overlaps(&o));
    let far = Rectangle::from_loc_and_size(Point::new(10, 0), Size::new(5, 5));
    assert!(!r.overlaps(&far));
}

#[test]
fn edge_flags() {
    let e = ResizeEdge::top_left();
    assert!(e.is_top() && e.is_left() && !e.is_bottom() && !e.is_right());
    assert!(e.intersects(ResizeEdge::left()));
    assert!(!e.intersects(ResizeEdge::bottom_right()));
    assert_eq!(ResizeEdge::from_bits(16), None);
    assert_eq!(ResizeEdge::from_bits(10), Some(ResizeEdge::bottom_right()));
    assert!(!ResizeEdge::none().affects_width());
}
