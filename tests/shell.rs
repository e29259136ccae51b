use navda::{
    AvWindow, FocusTarget, Navda, Point, PointerGrab, Rectangle, ResizeData, ResizeEdge, ResizeState, Size,
    WindowKind,
};

const BTN_LEFT: u32 = 0x110;

fn window<'a>(nav: &'a Navda, id: u64) -> &'a AvWindow {
    let i = nav.space.find(id).expect("window is mapped");
    &nav.space.elements[i].window
}

/// A compositor with one output and one native window of client 7 at `loc`.
fn setup(loc: Point, size: Size) -> Navda {
    let mut nav = Navda::new();
    nav.space.map_output(1, Rectangle::from_loc_and_size(Point::new(0, 0), Size::new(1920, 1080)));
    nav.new_toplevel(10, 7, WindowKind::Wayland, size);
    nav.space.map_element(10, loc, false);
    nav
}

/// Presses the left button over `p` and returns the press's serial.
fn press_at(nav: &mut Navda, p: Point) -> u32 {
    nav.pointer_motion(p);
    nav.pointer_button(BTN_LEFT, true)
}

#[test]
fn create_places_activates_and_configures_once() {
    let mut nav = Navda::new();
    nav.new_toplevel(10, 7, WindowKind::Wayland, Size::new(300, 200));
    assert_eq!(nav.space.element_location(10), Some(Point::new(0, 0)));
    let w = window(&nav, 10);
    assert!(w.pending.activated);
    assert_eq!(w.sent.len(), 1);
    assert!(w.sent[0].state.activated);
    // A second request for the same surface changes nothing.
    nav.new_toplevel(10, 7, WindowKind::Wayland, Size::new(300, 200));
    assert_eq!(window(&nav, 10).sent.len(), 1);
    assert_eq!(nav.space.elements.len(), 1);
}

#[test]
fn map_then_location() {
    let mut nav = setup(Point::new(5, 6), Size::new(100, 100));
    assert_eq!(nav.space.element_location(10), Some(Point::new(5, 6)));
    nav.space.map_element(10, Point::new(-40, 70), true);
    assert_eq!(nav.space.element_location(10), Some(Point::new(-40, 70)));
    assert_eq!(nav.space.element_location(11), None);
}

#[test]
fn move_scenario() {
    let mut nav = setup(Point::new(200, 150), Size::new(400, 300));
    // The press happens over the window at (250, 200); travel is measured from there.
    let serial = press_at(&mut nav, Point::new(250, 200));
    assert_eq!(nav.pointer_focus, Some(FocusTarget::Window { surface: 10, client: 7 }));
    assert!(nav.move_request(10, serial));
    nav.pointer_motion(Point::new(270, 180));
    nav.pointer_motion(Point::new(280, 170));
    // Travel (+30, -30) from the start.
    assert_eq!(nav.space.element_location(10), Some(Point::new(230, 120)));
    nav.pointer_button(BTN_LEFT, false);
    assert!(nav.grab.is_none());
    nav.pointer_motion(Point::new(500, 500));
    assert_eq!(nav.space.element_location(10), Some(Point::new(230, 120)));
}

#[test]
fn move_grab_start_at_fifty() {
    let mut nav = setup(Point::new(200, 150), Size::new(400, 300));
    nav.space.map_element(10, Point::new(0, 0), false);
    let serial = press_at(&mut nav, Point::new(50, 50));
    nav.space.map_element(10, Point::new(200, 150), false);
    assert!(nav.move_request(10, serial));
    nav.pointer_motion(Point::new(80, 20));
    assert_eq!(nav.space.element_location(10), Some(Point::new(230, 120)));
}

#[test]
fn move_request_rejected_for_stale_serial_or_other_client() {
    let mut nav = setup(Point::new(0, 0), Size::new(400, 300));
    nav.new_toplevel(20, 8, WindowKind::Wayland, Size::new(50, 50));
    nav.space.map_element(20, Point::new(1000, 1000), false);
    let serial = press_at(&mut nav, Point::new(10, 10));
    assert!(!nav.move_request(10, serial.wrapping_add(5)));
    // The press was over client 7's window, not client 8's.
    assert!(!nav.move_request(20, serial));
    assert!(!nav.move_request(99, serial));
    assert!(matches!(nav.grab.unwrap().grab, PointerGrab::Click(_)));
}

#[test]
fn moving_a_maximized_window_unmaximizes_it() {
    let mut nav = setup(Point::new(0, 0), Size::new(400, 300));
    nav.maximize_request(10);
    let i = nav.space.find(10).unwrap();
    nav.space.elements[i].window.current.maximized = true;
    let serial = press_at(&mut nav, Point::new(100, 100));
    assert!(nav.move_request(10, serial));
    let w = window(&nav, 10);
    assert!(!w.pending.maximized);
    assert_eq!(w.pending.size, None);
    match nav.grab.unwrap().grab {
        PointerGrab::Move(g) => assert_eq!(g.initial_window_location, Point::new(100, 100)),
        _ => panic!("expected a move grab"),
    }
}

#[test]
fn resize_scenario_left_edge() {
    let mut nav = setup(Point::new(100, 100), Size::new(400, 300));
    let serial = press_at(&mut nav, Point::new(102, 150));
    assert!(nav.resize_request(10, serial, ResizeEdge::left()));
    let data = ResizeData {
        edges: ResizeEdge::left(),
        initial_rect: Rectangle::from_loc_and_size(Point::new(100, 100), Size::new(400, 300)),
    };
    assert_eq!(nav.resize_states.get(10), ResizeState::Resizing(data));

    nav.pointer_motion(Point::new(52, 150));
    let w = window(&nav, 10);
    assert!(w.pending.resizing);
    assert_eq!(w.pending.size, Some(Size::new(450, 300)));
    let resizing_serial = w.sent.last().unwrap().serial;

    // The client draws at the new size.
    nav.ack_configure(10, resizing_serial);
    nav.commit(10, Size::new(450, 300));
    assert!(window(&nav, 10).current.resizing);

    // Release: the final configure drops the resizing flag.
    let release = nav.pointer_button(BTN_LEFT, false);
    assert!(nav.grab.is_none());
    let w = window(&nav, 10);
    assert!(!w.pending.resizing);
    assert_eq!(w.pending.size, Some(Size::new(450, 300)));
    assert_eq!(nav.resize_states.get(10), ResizeState::WaitingForFinalAck(data, release));
    let final_serial = w.sent.last().unwrap().serial;

    nav.ack_configure(10, final_serial);
    assert_eq!(nav.resize_states.get(10), ResizeState::WaitingForCommit(data));
    nav.commit(10, Size::new(450, 300));
    assert_eq!(nav.resize_states.get(10), ResizeState::Idle);
    assert_eq!(nav.space.element_location(10), Some(Point::new(50, 100)));
}

#[test]
fn resize_right_edge_keeps_location() {
    let mut nav = setup(Point::new(100, 100), Size::new(400, 300));
    let serial = press_at(&mut nav, Point::new(498, 150));
    assert!(nav.resize_request(10, serial, ResizeEdge::bottom_right()));
    nav.pointer_motion(Point::new(548, 170));
    assert_eq!(window(&nav, 10).pending.size, Some(Size::new(450, 320)));
    nav.commit(10, Size::new(450, 320));
    assert_eq!(nav.space.element_location(10), Some(Point::new(100, 100)));
}

#[test]
fn resize_respects_client_limits() {
    let mut nav = setup(Point::new(100, 100), Size::new(400, 300));
    let i = nav.space.find(10).unwrap();
    nav.space.elements[i].window.min_size = Size::new(350, 0);
    nav.space.elements[i].window.max_size = Size::new(420, 0);
    let serial = press_at(&mut nav, Point::new(102, 150));
    assert!(nav.resize_request(10, serial, ResizeEdge::top_left()));
    nav.pointer_motion(Point::new(2, 50));
    assert_eq!(window(&nav, 10).pending.size, Some(Size::new(420, 400)));
    nav.pointer_motion(Point::new(302, 600));
    // Width floors at the minimum, height at 1.
    assert_eq!(window(&nav, 10).pending.size, Some(Size::new(350, 1)));
}

#[test]
fn x11_resize_needs_no_ack() {
    let mut nav = Navda::new();
    nav.new_toplevel(30, 9, WindowKind::X11, Size::new(200, 200));
    nav.space.map_element(30, Point::new(300, 300), false);
    let serial = press_at(&mut nav, Point::new(305, 305));
    assert!(nav.resize_request(30, serial, ResizeEdge::top()));
    nav.pointer_motion(Point::new(305, 285));
    assert_eq!(window(&nav, 30).geometry, Size::new(200, 220));
    nav.pointer_button(BTN_LEFT, false);
    let data = ResizeData {
        edges: ResizeEdge::top(),
        initial_rect: Rectangle::from_loc_and_size(Point::new(300, 300), Size::new(200, 200)),
    };
    assert_eq!(nav.resize_states.get(30), ResizeState::WaitingForCommit(data));
    nav.commit(30, Size::new(200, 220));
    assert_eq!(nav.resize_states.get(30), ResizeState::Idle);
    assert_eq!(nav.space.element_location(30), Some(Point::new(300, 280)));
}

#[test]
fn resize_grab_ends_when_window_dies() {
    let mut nav = setup(Point::new(100, 100), Size::new(400, 300));
    let serial = press_at(&mut nav, Point::new(102, 150));
    assert!(nav.resize_request(10, serial, ResizeEdge::left()));
    let i = nav.space.find(10).unwrap();
    nav.space.elements[i].window.alive = false;
    nav.pointer_motion(Point::new(50, 150));
    assert!(nav.grab.is_none());
    nav.refresh();
    assert_eq!(nav.space.element_location(10), None);
}

#[test]
fn release_of_all_buttons_ends_any_grab() {
    let mut nav = setup(Point::new(0, 0), Size::new(400, 300));
    let serial = press_at(&mut nav, Point::new(10, 10));
    nav.pointer_button(0x111, true);
    assert!(nav.move_request(10, serial));
    nav.pointer_button(BTN_LEFT, false);
    assert!(nav.grab.is_some());
    nav.pointer_button(0x111, false);
    assert!(nav.grab.is_none());
    assert!(nav.pressed.is_empty());
}

#[test]
fn stale_ack_leaves_resize_waiting() {
    let mut nav = setup(Point::new(100, 100), Size::new(400, 300));
    let serial = press_at(&mut nav, Point::new(102, 150));
    assert!(nav.resize_request(10, serial, ResizeEdge::left()));
    nav.pointer_motion(Point::new(92, 150));
    let first = window(&nav, 10).sent.last().unwrap().serial;
    nav.ack_configure(10, first);
    nav.commit(10, Size::new(410, 300));
    nav.pointer_button(BTN_LEFT, false);
    // An acknowledgment older than the release does not finish the resize.
    nav.ack_configure(10, first);
    assert!(matches!(nav.resize_states.get(10), ResizeState::WaitingForFinalAck(_, _)));
}

#[test]
fn maximize_fills_output() {
    let mut nav = setup(Point::new(30, 40), Size::new(400, 300));
    nav.maximize_request(10);
    assert_eq!(nav.space.element_location(10), Some(Point::new(0, 0)));
    let w = window(&nav, 10);
    assert!(w.pending.maximized);
    assert_eq!(w.pending.size, Some(Size::new(1920, 1080)));
    nav.unmaximize_request(10);
    let w = window(&nav, 10);
    assert!(!w.pending.maximized);
    assert_eq!(w.pending.size, None);
}

#[test]
fn maximize_without_output_is_ignored() {
    let mut nav = Navda::new();
    nav.new_toplevel(10, 7, WindowKind::Wayland, Size::new(100, 100));
    nav.maximize_request(10);
    assert!(!window(&nav, 10).pending.maximized);
}

#[test]
fn fullscreen_scenario() {
    let mut nav = setup(Point::new(30, 40), Size::new(400, 300));
    nav.fullscreen_request(10, Some(1));
    assert_eq!(nav.fullscreen_surface(1), Some(10));
    let w = window(&nav, 10);
    assert!(w.pending.fullscreen);
    assert_eq!(w.pending.size, Some(Size::new(1920, 1080)));
    assert_eq!(w.pending.fullscreen_output, Some(1));
    assert_eq!(nav.unfullscreen_request(10), Some(1));
    assert_eq!(nav.fullscreen_surface(1), None);
    assert!(!window(&nav, 10).pending.fullscreen);
    // Nothing left to detach.
    assert_eq!(nav.unfullscreen_request(10), None);
}

#[test]
fn popup_grab_conflicts() {
    let mut nav = setup(Point::new(0, 0), Size::new(400, 300));
    let serial = press_at(&mut nav, Point::new(10, 10));
    assert!(!nav.popup_grab(10, serial.wrapping_add(3), None));
    assert!(nav.popup_grab(10, serial, None));
    assert_eq!(nav.keyboard_focus, Some(FocusTarget::Window { surface: 10, client: 7 }));
    assert_eq!(nav.keyboard_grab, Some(serial));
    assert!(!nav.popup_grab(99, serial, None));
    // A nested popup for a later event is accepted through its parent's serial.
    assert!(nav.popup_grab(10, serial.wrapping_add(1), Some(serial)));
    nav.popup_ungrab();
    assert!(nav.grab.is_none());
    assert_eq!(nav.keyboard_grab, None);
}

#[test]
fn popup_grab_on_layer_surface() {
    let mut nav = Navda::new();
    nav.map_layer(40, 3, 1);
    nav.map_layer(40, 4, 1);
    assert_eq!(nav.layers.len(), 1);
    assert!(nav.popup_grab(40, 1, None));
    assert_eq!(nav.keyboard_focus, Some(FocusTarget::LayerSurface { surface: 40, client: 3 }));
    // The keyboard grab of serial 1 refuses an unrelated popup.
    nav.popup_ungrab();
    nav.keyboard_grab = Some(1);
    assert!(!nav.popup_grab(40, 5, None));
}

#[test]
fn pointer_focus_follows_topmost() {
    let mut nav = setup(Point::new(0, 0), Size::new(400, 300));
    nav.new_toplevel(20, 8, WindowKind::Wayland, Size::new(100, 100));
    nav.space.map_element(20, Point::new(50, 50), false);
    nav.pointer_motion(Point::new(60, 60));
    assert_eq!(nav.pointer_focus, Some(FocusTarget::Window { surface: 20, client: 8 }));
    nav.pointer_motion(Point::new(300, 60));
    assert_eq!(nav.pointer_focus, Some(FocusTarget::Window { surface: 10, client: 7 }));
    nav.pointer_motion(Point::new(900, 900));
    assert_eq!(nav.pointer_focus, None);
}

#[test]
fn outputs_for_element_lists_overlaps() {
    let mut nav = setup(Point::new(1900, 0), Size::new(400, 300));
    nav.space.map_output(2, Rectangle::from_loc_and_size(Point::new(1920, 0), Size::new(1280, 1024)));
    assert_eq!(nav.space.outputs_for_element(10), vec![1, 2]);
    nav.space.map_element(10, Point::new(2000, 0), false);
    assert_eq!(nav.space.outputs_for_element(10), vec![2]);
    assert!(nav.space.outputs_for_element(55).is_empty());
}

#[test]
fn stop_clears_running() {
    let mut nav = Navda::new();
    assert!(nav.running);
    nav.stop();
    assert!(!nav.running);
}

#[test]
fn check_grab_gives_start_data() {
    let mut nav = setup(Point::new(0, 0), Size::new(400, 300));
    assert_eq!(nav.check_grab(10, 1), None);
    let serial = press_at(&mut nav, Point::new(10, 20));
    let start = nav.check_grab(10, serial).expect("grab allows the request");
    assert_eq!(start.location, Point::new(10, 20));
    assert_eq!(start.focus_client, Some(7));
    assert_eq!(nav.check_grab(10, serial.wrapping_add(1)), None);
}

#[test]
fn relative_motion_ends_resize_of_dead_window() {
    let mut nav = setup(Point::new(100, 100), Size::new(400, 300));
    let serial = press_at(&mut nav, Point::new(102, 150));
    assert!(nav.resize_request(10, serial, ResizeEdge::left()));
    nav.pointer_relative_motion();
    assert!(nav.grab.is_some());
    let i = nav.space.find(10).unwrap();
    nav.space.elements[i].window.alive = false;
    nav.pointer_relative_motion();
    assert!(nav.grab.is_none());
}

#[test]
fn fullscreen_on_unknown_output_is_ignored() {
    let mut nav = setup(Point::new(30, 40), Size::new(400, 300));
    let sent = window(&nav, 10).sent.len();
    nav.fullscreen_request(10, Some(2));
    assert_eq!(nav.fullscreen_surface(1), None);
    assert_eq!(nav.fullscreen_surface(2), None);
    assert!(!window(&nav, 10).pending.fullscreen);
    assert_eq!(window(&nav, 10).sent.len(), sent);
    // No output named: the one the window overlaps.
    nav.fullscreen_request(10, None);
    assert_eq!(nav.fullscreen_surface(1), Some(10));
}

#[test]
fn fullscreen_without_named_output_uses_first_output() {
    let mut nav = setup(Point::new(5000, 5000), Size::new(400, 300));
    nav.space.map_output(2, Rectangle::from_loc_and_size(Point::new(4800, 4800), Size::new(800, 800)));
    nav.fullscreen_request(10, None);
    assert_eq!(nav.fullscreen_surface(1), Some(10));
    assert_eq!(nav.fullscreen_surface(2), None);
    assert_eq!(window(&nav, 10).pending.size, Some(Size::new(1920, 1080)));
}

#[test]
fn fullscreen_without_any_output_is_ignored() {
    let mut nav = Navda::new();
    nav.new_toplevel(10, 7, WindowKind::Wayland, Size::new(100, 100));
    nav.fullscreen_request(10, None);
    assert!(!window(&nav, 10).pending.fullscreen);
}

#[test]
fn map_output_replaces_entry() {
    let mut nav = Navda::new();
    nav.space.map_output(1, Rectangle::from_loc_and_size(Point::new(0, 0), Size::new(10, 10)));
    nav.space.map_output(2, Rectangle::from_loc_and_size(Point::new(10, 0), Size::new(10, 10)));
    nav.space.map_output(1, Rectangle::from_loc_and_size(Point::new(0, 5), Size::new(20, 20)));
    assert_eq!(nav.space.outputs.len(), 2);
    assert_eq!(nav.space.output_geometry(1), Some(Rectangle::from_loc_and_size(Point::new(0, 5), Size::new(20, 20))));
}

#[test]
fn click_focuses_window_under_pointer() {
    let mut nav = setup(Point::new(0, 0), Size::new(400, 300));
    nav.new_toplevel(20, 8, WindowKind::Wayland, Size::new(100, 100));
    nav.space.map_element(20, Point::new(500, 500), false);
    let before = window(&nav, 10).sent.len();
    press_at(&mut nav, Point::new(10, 10));
    assert_eq!(nav.keyboard_focus, Some(FocusTarget::Window { surface: 10, client: 7 }));
    assert_eq!(nav.space.elements.last().unwrap().window.id, 10);
    assert!(window(&nav, 10).pending.activated);
    assert_eq!(window(&nav, 10).sent.len(), before + 1);
    nav.pointer_button(BTN_LEFT, false);
    // A press over no window deactivates every window.
    press_at(&mut nav, Point::new(450, 450));
    assert_eq!(nav.keyboard_focus, None);
    assert!(!window(&nav, 10).pending.activated);
    assert!(!window(&nav, 20).pending.activated);
    assert_eq!(nav.space.element_location(20), Some(Point::new(500, 500)));
}
