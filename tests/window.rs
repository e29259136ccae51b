use navda::{AvWindow, Point, Rectangle, Size, WindowKind};

#[test]
fn window_geometry_and_surface_lookup() {
    let w = AvWindow::new(3, 4, WindowKind::X11, Size::new(20, 10));
    assert_eq!(w.bbox(), Rectangle::from_loc_and_size(Point::new(0, 0), Size::new(20, 10)));
    assert_eq!(w.geometry(), w.bbox());
    assert_eq!(w.surface_under(Point::new(19, 9)), Some((3, Point::new(0, 0))));
    assert_eq!(w.surface_under(Point::new(20, 9)), None);
    assert_eq!(w.wl_surface(), Some(3));
    assert!(!w.is_wayland());
    assert!(w.is_alive());
}

#[test]
fn activation_reports_change() {
    let mut w = AvWindow::new(3, 4, WindowKind::Wayland, Size::new(20, 10));
    assert!(w.set_activate(true));
    assert!(!w.set_activate(true));
    assert!(w.pending.activated);
    assert!(w.set_activate(false));
}

#[test]
fn configure_handshake() {
    let mut w = AvWindow::new(3, 4, WindowKind::Wayland, Size::new(20, 10));
    w.pending.maximized = true;
    w.send_configure(5);
    w.pending.maximized = false;
    w.send_configure(6);
    assert!(!w.ack_configure(9));
    assert!(w.ack_configure(5));
    assert_eq!(w.sent.len(), 1);
    assert_eq!(w.acked.map(|s| s.maximized), Some(true));
    w.commit(Size::new(30, 30));
    assert!(w.current.maximized);
    assert_eq!(w.geometry, Size::new(30, 30));
    assert_eq!(w.acked, None);
}

#[test]
fn frame_callbacks_throttle_per_window() {
    let mut w = AvWindow::new(3, 4, WindowKind::Wayland, Size::new(20, 10));
    assert!(w.send_frame(100, 1000));
    assert!(!w.send_frame(900, 1000));
    assert!(w.send_frame(1100, 1000));
    assert_eq!(w.last_frame_ms, Some(1100));
}
