use navda::render::{buffer_age, frame_due, presentation_feedback, FRAME_THROTTLE_MS};
use navda::{CustomElement, ErrorAction, Navda, Point, PresentationFeedback, Rectangle, RenderError, RenderItem, Size, WindowKind};

fn two_windows() -> Navda {
    let mut nav = Navda::new();
    nav.space.map_output(1, Rectangle::from_loc_and_size(Point::new(100, 0), Size::new(800, 600)));
    nav.new_toplevel(10, 7, WindowKind::Wayland, Size::new(200, 200));
    nav.new_toplevel(20, 8, WindowKind::Wayland, Size::new(200, 200));
    nav.space.map_element(10, Point::new(150, 50), false);
    nav.space.map_element(20, Point::new(2000, 0), false);
    nav
}

#[test]
fn full_redraw_resets_age() {
    assert_eq!(buffer_age(true, 3), 0);
    assert_eq!(buffer_age(false, 3), 3);
}

#[test]
fn frame_callbacks_are_throttled() {
    assert!(frame_due(5, None, FRAME_THROTTLE_MS));
    assert!(!frame_due(1500, Some(1000), FRAME_THROTTLE_MS));
    assert!(frame_due(2000, Some(1000), FRAME_THROTTLE_MS));
}

#[test]
fn feedback_only_with_damage() {
    assert_eq!(presentation_feedback(false, 16_666_666), None);
    assert_eq!(
        presentation_feedback(true, 16_666_666),
        Some(PresentationFeedback { refresh_ns: 16_666_666, vsync: true })
    );
}

#[test]
fn normal_frame_composes_visible_windows() {
    let nav = two_windows();
    let plan = nav.plan_frame(1, &vec![CustomElement::Cursor], false, 2);
    assert_eq!(plan.age, 2);
    assert!(!plan.fullscreen);
    assert_eq!(
        plan.items,
        vec![RenderItem::Custom(CustomElement::Cursor), RenderItem::Window { surface: 10, loc: Point::new(50, 50) }]
    );
}

#[test]
fn fullscreen_frame_shows_window_alone() {
    let mut nav = two_windows();
    nav.fullscreen_request(20, Some(1));
    let plan = nav.plan_frame(1, &vec![], true, 2);
    assert_eq!(plan.age, 0);
    assert!(plan.fullscreen);
    assert_eq!(plan.items, vec![RenderItem::Window { surface: 20, loc: Point::new(0, 0) }]);
    assert_eq!(nav.unfullscreen_request(20), Some(1));
    let plan = nav.plan_frame(1, &vec![], false, 2);
    assert!(!plan.fullscreen);
}

#[test]
fn unknown_output_draws_custom_only() {
    let nav = two_windows();
    let plan = nav.plan_frame(9, &vec![CustomElement::DragIcon], false, 1);
    assert_eq!(plan.items, vec![RenderItem::Custom(CustomElement::DragIcon)]);
}

#[test]
fn post_repaint_sends_throttled_frames() {
    let mut nav = two_windows();
    // Window 20 lies outside output 1.
    assert_eq!(nav.post_repaint(1, 5000), vec![10]);
    assert_eq!(nav.post_repaint(1, 5400), Vec::<u64>::new());
    assert_eq!(nav.post_repaint(1, 6000), vec![10]);
    assert_eq!(nav.post_repaint(9, 9000), Vec::<u64>::new());
    let i = nav.space.find(10).unwrap();
    assert_eq!(nav.space.elements[i].window.last_frame_ms, Some(6000));
}

#[test]
fn post_repaint_reaches_layer_surfaces_of_the_output() {
    let mut nav = two_windows();
    nav.map_layer(50, 3, 1);
    nav.map_layer(51, 3, 2);
    assert_eq!(nav.post_repaint(1, 5000), vec![10, 50]);
    assert_eq!(nav.layers[0].last_frame_ms, Some(5000));
    assert_eq!(nav.layers[1].last_frame_ms, None);
    assert_eq!(nav.post_repaint(1, 5500), Vec::<u64>::new());
    // Output 2 is not in the space: no window, but its layer surface.
    assert_eq!(nav.post_repaint(2, 5500), vec![51]);
}

#[test]
fn render_errors_classified() {
    let mut nav = Navda::new();
    assert_eq!(nav.handle_render_error(RenderError::Recoverable), ErrorAction::SkipFrame);
    assert!(nav.running);
    assert_eq!(nav.handle_render_error(RenderError::ContextLost), ErrorAction::Shutdown);
    assert!(!nav.running);
}
