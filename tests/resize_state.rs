use navda::{Point, Rectangle, ResizeData, ResizeEdge, ResizeState, ResizeStates, Size};

fn data() -> ResizeData {
    ResizeData {
        edges: ResizeEdge::top_left(),
        initial_rect: Rectangle::from_loc_and_size(Point::new(1, 2), Size::new(3, 4)),
    }
}

#[test]
fn idle_commit_yields_none() {
    let mut s = ResizeState::idle();
    assert_eq!(s.commit(), None);
    assert_eq!(s, ResizeState::Idle);
}

#[test]
fn ack_then_commit_returns_to_idle() {
    let d = data();
    let mut s = ResizeState::WaitingForFinalAck(d, 40);
    s.ack_configure(41, true);
    assert_eq!(s, ResizeState::WaitingForCommit(d));
    assert_eq!(s.commit(), Some((d.edges, d.initial_rect)));
    assert_eq!(s, ResizeState::Idle);
    assert_eq!(s.commit(), None);
}

#[test]
fn ack_needs_serial_and_resizing_flag() {
    let d = data();
    let mut s = ResizeState::WaitingForFinalAck(d, 40);
    s.ack_configure(39, true);
    assert_eq!(s, ResizeState::WaitingForFinalAck(d, 40));
    s.ack_configure(40, false);
    assert_eq!(s, ResizeState::WaitingForFinalAck(d, 40));
    s.ack_configure(40, true);
    assert_eq!(s, ResizeState::WaitingForCommit(d));
}

#[test]
fn resizing_commit_keeps_state() {
    let d = data();
    let mut s = ResizeState::Resizing(d);
    assert_eq!(s.commit(), Some((d.edges, d.initial_rect)));
    assert_eq!(s, ResizeState::Resizing(d));
}

#[test]
fn side_table_defaults_to_idle() {
    let mut t = ResizeStates::new();
    assert_eq!(t.get(5), ResizeState::Idle);
    t.set(5, ResizeState::Resizing(data()));
    t.set(6, ResizeState::WaitingForCommit(data()));
    assert_eq!(t.get(5), ResizeState::Resizing(data()));
    t.set(5, ResizeState::Idle);
    assert_eq!(t.get(5), ResizeState::Idle);
    assert_eq!(t.get(6), ResizeState::WaitingForCommit(data()));
    assert_eq!(t.table.entries.len(), 2);
}
