use vstd::prelude::*;
use crate::edges::ResizeEdge;
use crate::focus::FocusTarget;
use crate::fullscreen::FullscreenSurfaces;
use crate::geometry::{Point, Size, Rectangle};
use crate::grabs::{
    GrabStartData, MoveSurfaceGrab, ResizeSurfaceGrab, move_location, resize_size,
    anchor_location, moved_location, resized_size, anchored_location,
};
use crate::resize_state::{ResizeData, ResizeState, ResizeStates, after_ack, after_commit, commit_result};
use crate::space::{Space, Placed, OutputEntry, ids_unique, has_window, index_of, location_in, lemma_update_placed, placed_rect, topmost_index};
use crate::window::{AvWindow, WindowKind, ToplevelState, Configure, acked_configure, committed};

verus! {

/// The grab installed on the pointer.
#[derive(Clone, Copy, Debug, PartialEq, Eq, Structural)]
pub enum PointerGrab {
    /// The implicit grab of a button press: the pointer stays with the
    /// surface it was pressed on until every button is released.
    Click(GrabStartData),
    Move(MoveSurfaceGrab),
    Resize(ResizeSurfaceGrab),
    /// A popup grab, rooted at the given surface.
    Popup(GrabStartData, u64),
}

/// A grab with the serial of the input event that started it.
#[derive(Clone, Copy, Debug, PartialEq, Eq, Structural)]
pub struct ActiveGrab {
    pub grab: PointerGrab,
    pub serial: u32,
}

/// A layer surface (a panel, a background, an overlay) anchored to one
/// output.
#[derive(Clone, Copy, Debug, PartialEq, Eq, Structural)]
pub struct LayerSurface {
    pub surface: u64,
    /// The client that owns the surface.
    pub client: u64,
    /// The output the surface is shown on.
    pub output: u64,
    /// When the surface was last sent a frame callback, in milliseconds.
    pub last_frame_ms: Option<u64>,
}

/// Where a new toplevel is first placed.
pub open spec fn initial_placement() -> Point {
    Point { x: 0, y: 0 }
}

/// The start data of a grab.
pub open spec fn start_of(g: PointerGrab) -> GrabStartData {
    match g {
        PointerGrab::Click(d) => d,
        PointerGrab::Move(m) => m.start_data,
        PointerGrab::Resize(r) => r.start_data,
        PointerGrab::Popup(d, _) => d,
    }
}

/// The serial after `s`, wrapping around.
pub open spec fn serial_after(s: u32) -> u32 {
    if s == u32::MAX { 0 } else { (s + 1) as u32 }
}

/// The compositor's state: the space, the resize side table, the pointer
/// with its grab and focus, and the fullscreen association of each output.
#[derive(Debug)]
pub struct Navda {
    pub space: Space,
    pub resize_states: ResizeStates,
    pub pointer_location: Point,
    /// The buttons held down, as button codes.
    pub pressed: Vec<u32>,
    pub grab: Option<ActiveGrab>,
    pub pointer_focus: Option<FocusTarget>,
    pub keyboard_focus: Option<FocusTarget>,
    /// The serial of the event that started the keyboard's popup grab.
    pub keyboard_grab: Option<u32>,
    /// The layer surfaces, in the order they were registered.
    pub layers: Vec<LayerSurface>,
    /// The window presented fullscreen on each output.
    pub fullscreen: FullscreenSurfaces,
    /// The last serial handed out.
    pub serial: u32,
    /// Cleared when the compositor has to stop.
    pub running: bool,
}

impl Navda {
    pub open spec fn wf(&self) -> bool {
        &&& self.space.wf()
        &&& self.resize_states.wf()
        &&& self.fullscreen.wf()
    }

    /// An empty compositor: no window, no output, no grab.
    pub fn new() -> (r: Navda)
        ensures
            r.wf(),
            r.space.elements@.len() == 0,
            r.space.outputs@.len() == 0,
            r.grab is None,
            r.pressed@.len() == 0,
            forall|o: u64| #[trigger] r.fullscreen.state(o) is None,
            r.running,
    {
        Navda {
            space: Space::new(),
            resize_states: ResizeStates::new(),
            pointer_location: Point { x: 0, y: 0 },
            pressed: Vec::new(),
            grab: None,
            pointer_focus: None,
            keyboard_focus: None,
            keyboard_grab: None,
            layers: Vec::new(),
            fullscreen: FullscreenSurfaces::new(),
            serial: 0,
            running: true,
        }
    }

    /// Hands out the next serial.
    pub fn next_serial(&mut self) -> (r: u32)
        ensures
            r == serial_after(old(self).serial),
            final(self).serial == r,
            final(self).space == old(self).space,
            final(self).resize_states == old(self).resize_states,
            final(self).pointer_location == old(self).pointer_location,
            final(self).pressed@ == old(self).pressed@,
            final(self).grab == old(self).grab,
            final(self).pointer_focus == old(self).pointer_focus,
            final(self).keyboard_focus == old(self).keyboard_focus,
            final(self).fullscreen == old(self).fullscreen,
            final(self).running == old(self).running,
    {
        self.serial = if self.serial == u32::MAX { 0 } else { self.serial + 1 };
        self.serial
    }

    /// Whether the pointer holds a grab started by the event with `serial`.
    pub fn has_grab(&self, serial: u32) -> (r: bool)
        ensures
            r == (match self.grab {
                Some(g) => g.serial == serial,
                None => false,
            }),
    {
        match self.grab {
            Some(g) => g.serial == serial,
            None => false,
        }
    }

    /// Stops the compositor: the driving loop ends when it next looks.
    pub fn stop(&mut self)
        ensures
            !final(self).running,
            final(self).space == old(self).space,
            final(self).grab == old(self).grab,
            final(self).resize_states == old(self).resize_states,
            final(self).fullscreen == old(self).fullscreen,
            final(self).layers == old(self).layers,
    {
        self.running = false;
    }

    /// A client made a new toplevel: the window is placed at the initial
    /// location on top of the others, marked activated, and sent its first
    /// configure. A surface that is already mapped is left alone.
    pub fn new_toplevel(&mut self, surface: u64, client: u64, kind: WindowKind, geometry: Size)
        requires
            old(self).wf(),
        ensures
            final(self).wf(),
            old(self).space.mapped(surface) ==> final(self).space == old(self).space,
            !old(self).space.mapped(surface) ==> {
                &&& final(self).space.location(surface) == Some(initial_placement())
                &&& final(self).space.elements@.last().window.id == surface
                &&& final(self).space.window(surface).client == client
                &&& final(self).space.window(surface).kind == kind
                &&& final(self).space.window(surface).alive
                &&& final(self).space.window(surface).geometry == geometry
                &&& final(self).space.window(surface).min_size == (Size { w: 0, h: 0 })
                &&& final(self).space.window(surface).max_size == (Size { w: 0, h: 0 })
                &&& final(self).space.window(surface).pending.activated
                &&& final(self).space.window(surface).sent@.len() == 1
                &&& final(self).space.window(surface).sent@[0].state.activated
                &&& final(self).space.elements@.drop_last() == old(self).space.elements@
            },
            final(self).grab == old(self).grab,
            final(self).resize_states == old(self).resize_states,
            final(self).fullscreen == old(self).fullscreen,
    {
        if self.space.find(surface).is_some() {
            return;
        }
        let mut w = AvWindow::new(surface, client, kind, geometry);
        w.pending.activated = true;
        let serial = self.next_serial();
        w.send_configure(serial);
        self.space.map(w, Point { x: 0, y: 0 }, true);
        proof {
            let e = self.space.elements@;
            assert(index_of(e, surface) == e.len() - 1);
        }
    }

    /// Gives the window at position `i` a new pending state, and with
    /// `send` sends it to the client under a fresh serial. Its location and
    /// z-order stay.
    fn configure_at(&mut self, i: usize, pending: ToplevelState, send: bool)
        requires
            old(self).wf(),
            i < old(self).space.elements@.len(),
        ensures
            final(self).wf(),
            final(self).space.elements@ == old(self).space.elements@.update(i as int, final(self).space.elements@[i as int]),
            final(self).space.elements@[i as int].loc == old(self).space.elements@[i as int].loc,
            same_but_state(final(self).space.elements@[i as int].window, old(self).space.elements@[i as int].window),
            final(self).space.elements@[i as int].window.pending == pending,
            final(self).space.elements@[i as int].window.sent@ == (if send {
                old(self).space.elements@[i as int].window.sent@.push(Configure { serial: serial_after(old(self).serial), state: pending })
            } else {
                old(self).space.elements@[i as int].window.sent@
            }),
            final(self).space.elements@[i as int].window.geometry == old(self).space.elements@[i as int].window.geometry,
            final(self).space.outputs@ == old(self).space.outputs@,
            final(self).resize_states == old(self).resize_states,
            final(self).grab == old(self).grab,
            final(self).pressed@ == old(self).pressed@,
            final(self).pointer_location == old(self).pointer_location,
            final(self).pointer_focus == old(self).pointer_focus,
            final(self).keyboard_focus == old(self).keyboard_focus,
            final(self).fullscreen == old(self).fullscreen,
            final(self).running == old(self).running,
            send ==> final(self).serial == serial_after(old(self).serial),
            !send ==> final(self).serial == old(self).serial,
    {
        let ghost s = self.space.elements@;
        let mut p = self.space.take_at(i);
        p.window.pending = pending;
        if send {
            let serial = self.next_serial();
            p.window.send_configure(serial);
        }
        let ghost pp = p;
        self.space.put_at(i, p);
        proof {
            lemma_update_placed(s, i as int, pp);
        }
    }

    /// Sets the geometry size of the window at position `i` directly, as
    /// a proxied X11 window is reconfigured. Its location and z-order stay.
    fn set_geometry_at(&mut self, i: usize, size: Size)
        requires
            old(self).wf(),
            i < old(self).space.elements@.len(),
        ensures
            final(self).wf(),
            final(self).space.elements@ == old(self).space.elements@.update(i as int, final(self).space.elements@[i as int]),
            final(self).space.elements@[i as int].loc == old(self).space.elements@[i as int].loc,
            same_but_state(final(self).space.elements@[i as int].window, old(self).space.elements@[i as int].window),
            final(self).space.elements@[i as int].window.pending == old(self).space.elements@[i as int].window.pending,
            final(self).space.elements@[i as int].window.sent == old(self).space.elements@[i as int].window.sent,
            final(self).space.elements@[i as int].window.geometry == size,
            final(self).space.outputs@ == old(self).space.outputs@,
            final(self).resize_states == old(self).resize_states,
            final(self).grab == old(self).grab,
            final(self).pressed@ == old(self).pressed@,
            final(self).pointer_location == old(self).pointer_location,
            final(self).pointer_focus == old(self).pointer_focus,
            final(self).keyboard_focus == old(self).keyboard_focus,
            final(self).fullscreen == old(self).fullscreen,
            final(self).running == old(self).running,
            final(self).serial == old(self).serial,
    {
        let ghost s = self.space.elements@;
        let mut p = self.space.take_at(i);
        p.window.geometry = size;
        let ghost pp = p;
        self.space.put_at(i, p);
        proof {
            lemma_update_placed(s, i as int, pp);
        }
    }

    /// The input target under `point`: the topmost window there.
    pub open spec fn surface_under_spec(&self, point: Point) -> Option<FocusTarget> {
        match topmost_index(self.space.elements@, point) {
            Some(i) => Some(FocusTarget::Window {
                surface: self.space.elements@[i].window.id,
                client: self.space.elements@[i].window.client,
            }),
            None => None,
        }
    }

    /// The input target under `point`: the topmost window there.
    pub fn surface_under(&self, point: Point) -> (r: Option<FocusTarget>)
        requires
            self.wf(),
        ensures
            r == self.surface_under_spec(point),
            match topmost_index(self.space.elements@, point) {
                Some(i) => 0 <= i < self.space.elements@.len(),
                None => true,
            },
    {
        match self.space.element_under(point) {
            None => None,
            Some((id, _loc)) => {
                match self.space.find(id) {
                    Some(i) => Some(FocusTarget::Window { surface: id, client: self.space.elements[i].window.client }),
                    None => None,
                }
            },
        }
    }

    /// The pointer moved to `location`.
    ///
    /// A move grab places its window at the initial location plus the
    /// pointer's travel since the grab began. A resize grab ends when its
    /// window is gone or dead; otherwise it asks the window for the size
    /// the travel gives, clamped to the window's limits (a native window by
    /// a configure flagged resizing, an X11 window directly). Without such
    /// a grab, the pointer focus follows the topmost window under it.
    pub fn pointer_motion(&mut self, location: Point)
        requires
            old(self).wf(),
        ensures
            final(self).wf(),
            final(self).pointer_location == location,
            final(self).pressed@ == old(self).pressed@,
            final(self).fullscreen == old(self).fullscreen,
            final(self).space.outputs@ == old(self).space.outputs@,
            match old(self).grab {
                Some(ActiveGrab { grab: PointerGrab::Move(g), serial }) => {
                    &&& final(self).grab == old(self).grab
                    &&& final(self).pointer_focus is None
                    &&& final(self).resize_states == old(self).resize_states
                    &&& old(self).space.mapped(g.window) ==> final(self).space.location(g.window)
                        == Some(moved_location(g.initial_window_location, g.start_data.location, location))
                    &&& old(self).space.mapped(g.window) ==> final(self).space.window(g.window).pending.activated
                    &&& old(self).space.mapped(g.window) ==> final(self).space.elements@.last().window.id == g.window
                    &&& !old(self).space.mapped(g.window) ==> final(self).space.elements@ == old(self).space.elements@
                    &&& forall|o: u64| o != g.window ==> #[trigger] final(self).space.location(o) == old(self).space.location(o)
                },
                Some(ActiveGrab { grab: PointerGrab::Resize(g), serial }) => {
                    &&& final(self).pointer_focus is None
                    &&& forall|o: u64| #[trigger] final(self).space.location(o) == old(self).space.location(o)
                    &&& !(old(self).space.mapped(g.window) && old(self).space.window(g.window).alive) ==> {
                        &&& final(self).grab is None
                        &&& final(self).space.elements@ == old(self).space.elements@
                        &&& final(self).resize_states == old(self).resize_states
                    }
                    &&& (old(self).space.mapped(g.window) && old(self).space.window(g.window).alive) ==> {
                        let w = old(self).space.window(g.window);
                        let size = resized_size(g.initial_rect.size, g.edges, g.start_data.location, location, w.min_size, w.max_size);
                        &&& final(self).grab == Some(ActiveGrab {
                            grab: PointerGrab::Resize(ResizeSurfaceGrab {
                                start_data: g.start_data,
                                window: g.window,
                                edges: g.edges,
                                initial_rect: g.initial_rect,
                                last_window_size: size,
                            }),
                            serial,
                        })
                        &&& final(self).resize_states.state(g.window)
                            == ResizeState::Resizing(ResizeData { edges: g.edges, initial_rect: g.initial_rect })
                        &&& forall|o: u64| o != g.window ==> #[trigger] final(self).resize_states.state(o) == old(self).resize_states.state(o)
                        &&& w.kind == WindowKind::Wayland ==> {
                            &&& final(self).space.window(g.window).pending.resizing
                            &&& final(self).space.window(g.window).pending.size == Some(size)
                            &&& final(self).space.window(g.window).sent@.len() == w.sent@.len() + 1
                            &&& final(self).space.window(g.window).sent@.last().state == final(self).space.window(g.window).pending
                        }
                        &&& w.kind == WindowKind::X11 ==> final(self).space.window(g.window).geometry == size
                    }
                },
                _ => {
                    &&& final(self).grab == old(self).grab
                    &&& final(self).space == old(self).space
                    &&& final(self).resize_states == old(self).resize_states
                    &&& final(self).pointer_focus == old(self).surface_under_spec(location)
                },
            },
    {
        match self.grab {
            Some(ActiveGrab { grab: PointerGrab::Move(g), serial: _ }) => {
                let loc = move_location(g.initial_window_location, g.start_data.location, location);
                self.space.map_element(g.window, loc, true);
                self.pointer_focus = None;
            },
            Some(ActiveGrab { grab: PointerGrab::Resize(g), serial }) => {
                self.pointer_focus = None;
                match self.space.find(g.window) {
                    None => {
                        self.grab = None;
                    },
                    Some(i) => {
                        if !self.space.elements[i].window.alive {
                            self.grab = None;
                        } else {
                            let ghost s = self.space.elements@;
                            let min = self.space.elements[i].window.min_size;
                            let max = self.space.elements[i].window.max_size;
                            let size = resize_size(g.initial_rect.size, g.edges, g.start_data.location, location, min, max);
                            if self.space.elements[i].window.is_wayland() {
                                let mut pending = self.space.elements[i].window.pending;
                                pending.resizing = true;
                                pending.size = Some(size);
                                self.configure_at(i, pending, true);
                            } else {
                                self.set_geometry_at(i, size);
                            }
                            proof {
                                lemma_update_placed(s, i as int, self.space.elements@[i as int]);
                            }
                            self.resize_states.set(
                                g.window,
                                ResizeState::Resizing(ResizeData { edges: g.edges, initial_rect: g.initial_rect }),
                            );
                            self.grab = Some(ActiveGrab {
                                grab: PointerGrab::Resize(ResizeSurfaceGrab {
                                    start_data: g.start_data,
                                    window: g.window,
                                    edges: g.edges,
                                    initial_rect: g.initial_rect,
                                    last_window_size: size,
                                }),
                                serial,
                            });
                        }
                    },
                }
            },
            _ => {
                self.pointer_focus = self.surface_under(location);
            },
        }
        self.pointer_location = location;
    }

    /// The pointer moved by a relative amount (no new location): a resize
    /// grab whose window is gone or dead ends; nothing else changes.
    pub fn pointer_relative_motion(&mut self)
        requires
            old(self).wf(),
        ensures
            final(self).wf(),
            final(self).grab == (match old(self).grab {
                Some(ActiveGrab { grab: PointerGrab::Resize(g), .. }) =>
                    if old(self).space.mapped(g.window) && old(self).space.window(g.window).alive {
                        old(self).grab
                    } else {
                        None
                    },
                _ => old(self).grab,
            }),
            final(self).space == old(self).space,
            final(self).resize_states == old(self).resize_states,
            final(self).fullscreen == old(self).fullscreen,
            final(self).pointer_location == old(self).pointer_location,
    {
        if let Some(ActiveGrab { grab: PointerGrab::Resize(g), .. }) = self.grab {
            match self.space.find(g.window) {
                Some(i) => {
                    if !self.space.elements[i].window.alive {
                        self.grab = None;
                    }
                },
                None => {
                    self.grab = None;
                },
            }
        }
    }

    /// Whether button `b` is held.
    fn is_pressed(&self, b: u32) -> (r: bool)
        ensures
            r == self.pressed@.contains(b),
    {
        let n = self.pressed.len();
        let mut i: usize = 0;
        while i < n
            invariant
                n == self.pressed@.len(),
                i <= n,
                forall|j: int| 0 <= j < i ==> self.pressed@[j] != b,
            decreases n - i,
        {
            if self.pressed[i] == b {
                return true;
            }
            i = i + 1;
        }
        false
    }

    /// Drops button `b` from the held buttons.
    fn release_button(&mut self, b: u32)
        ensures
            final(self).pressed@ == old(self).pressed@.filter(|x: u32| x != b),
            final(self).space == old(self).space,
            final(self).resize_states == old(self).resize_states,
            final(self).grab == old(self).grab,
            final(self).pointer_location == old(self).pointer_location,
            final(self).pointer_focus == old(self).pointer_focus,
            final(self).keyboard_focus == old(self).keyboard_focus,
            final(self).fullscreen == old(self).fullscreen,
            final(self).serial == old(self).serial,
            final(self).running == old(self).running,
    {
        let ghost s = self.pressed@;
        let mut kept: Vec<u32> = Vec::new();
        let n = self.pressed.len();
        let mut i: usize = 0;
        while i < n
            invariant
                n == s.len(),
                s == self.pressed@,
                i <= n,
                kept@ == s.subrange(0, i as int).filter(|x: u32| x != b),
            decreases n - i,
        {
            let x = self.pressed[i];
            proof {
                assert(s.subrange(0, i + 1) =~= s.subrange(0, i as int).push(x));
                s.subrange(0, i as int).lemma_filter_push(x, |x: u32| x != b);
            }
            if x != b {
                kept.push(x);
            }
            i = i + 1;
        }
        proof {
            assert(s.subrange(0, n as int) =~= s);
        }
        self.pressed = kept;
    }

    /// What ending the resize grab `g` with the button event `serial` did,
    /// from this state to `fin`, with `cfg_serial` the serial of the final
    /// configure. A live native window gets a configure without the
    /// resizing flag, asking for the last size, and waits for its
    /// acknowledgment; a live X11 window takes the last size directly and
    /// waits for its commit; a window that is gone or dead is left alone.
    pub open spec fn resize_ended(&self, fin: &Navda, g: ResizeSurfaceGrab, serial: u32, cfg_serial: u32) -> bool {
        let live = self.space.mapped(g.window) && self.space.window(g.window).alive;
        let data = ResizeData { edges: g.edges, initial_rect: g.initial_rect };
        let w = self.space.window(g.window);
        let nw = fin.space.window(g.window);
        &&& forall|o: u64| #[trigger] fin.space.location(o) == self.space.location(o)
        &&& forall|o: u64| o != g.window ==> #[trigger] fin.resize_states.state(o) == self.resize_states.state(o)
        &&& !live ==> {
            &&& fin.space.elements@ == self.space.elements@
            &&& fin.resize_states == self.resize_states
        }
        &&& live ==> {
            &&& fin.space.mapped(g.window)
            &&& fin.space.elements@.len() == self.space.elements@.len()
            &&& same_but_state(nw, w)
            &&& w.kind == WindowKind::Wayland ==> {
                &&& nw.pending == (ToplevelState { resizing: false, size: Some(g.last_window_size), ..w.pending })
                &&& nw.sent@ == w.sent@.push(Configure { serial: cfg_serial, state: nw.pending })
                &&& nw.geometry == w.geometry
                &&& fin.resize_states.state(g.window) == ResizeState::WaitingForFinalAck(data, serial)
            }
            &&& w.kind == WindowKind::X11 ==> {
                &&& nw.geometry == g.last_window_size
                &&& nw.pending == w.pending
                &&& nw.sent@ == w.sent@
                &&& fin.resize_states.state(g.window) == ResizeState::WaitingForCommit(data)
            }
        }
    }

    /// Ends the interactive part of a resize with the button event
    /// `serial` (see `resize_ended`).
    fn finish_resize(&mut self, g: ResizeSurfaceGrab, serial: u32)
        requires
            old(self).wf(),
        ensures
            final(self).wf(),
            final(self).grab == old(self).grab,
            final(self).pressed@ == old(self).pressed@,
            final(self).space.outputs@ == old(self).space.outputs@,
            final(self).fullscreen == old(self).fullscreen,
            final(self).pointer_location == old(self).pointer_location,
            final(self).serial == old(self).serial || final(self).serial == serial_after(old(self).serial),
            old(self).resize_ended(final(self), g, serial, serial_after(old(self).serial)),
    {
        match self.space.find(g.window) {
            None => {},
            Some(i) => {
                if self.space.elements[i].window.alive {
                    let ghost s = self.space.elements@;
                    let wl = self.space.elements[i].window.is_wayland();
                    let data = ResizeData { edges: g.edges, initial_rect: g.initial_rect };
                    if wl {
                        let mut pending = self.space.elements[i].window.pending;
                        pending.resizing = false;
                        pending.size = Some(g.last_window_size);
                        self.configure_at(i, pending, true);
                        self.resize_states.set(g.window, ResizeState::WaitingForFinalAck(data, serial));
                    } else {
                        self.set_geometry_at(i, g.last_window_size);
                        self.resize_states.set(g.window, ResizeState::WaitingForCommit(data));
                    }
                    proof {
                        lemma_update_placed(s, i as int, self.space.elements@[i as int]);
                    }
                }
            },
        }
    }

    /// What a press with no grab did to focus, from this state to `fin`:
    /// the window under the pointer is raised, activated, sent a configure
    /// and given keyboard focus; over no window, every window is
    /// deactivated and sent a configure, and the keyboard loses focus.
    pub open spec fn focused_by_click(&self, fin: &Navda) -> bool {
        match self.surface_under_spec(self.pointer_location) {
            Some(t) => {
                let id = t.surface_spec();
                let w = self.space.window(id);
                let nw = fin.space.window(id);
                &&& fin.keyboard_focus == Some(t)
                &&& fin.space.elements@.len() == self.space.elements@.len()
                &&& fin.space.elements@.last().window.id == id
                &&& same_but_state(nw, w)
                &&& nw.geometry == w.geometry
                &&& nw.pending == (ToplevelState { activated: true, ..w.pending })
                &&& nw.sent@.len() == w.sent@.len() + 1
                &&& nw.sent@.last().state == nw.pending
            },
            None => {
                &&& fin.keyboard_focus is None
                &&& fin.space.elements@.len() == self.space.elements@.len()
                &&& forall|j: int| 0 <= j < self.space.elements@.len() ==>
                    deactivated(#[trigger] fin.space.elements@[j], self.space.elements@[j])
            },
        }
    }

    /// Focus on a press with no grab (see `focused_by_click`).
    fn click_focus(&mut self)
        requires
            old(self).wf(),
        ensures
            final(self).wf(),
            old(self).focused_by_click(final(self)),
            forall|o: u64| #[trigger] final(self).space.location(o) == old(self).space.location(o),
            final(self).space.outputs@ == old(self).space.outputs@,
            final(self).resize_states == old(self).resize_states,
            final(self).grab == old(self).grab,
            final(self).pressed@ == old(self).pressed@,
            final(self).pointer_location == old(self).pointer_location,
            final(self).pointer_focus == old(self).pointer_focus,
            final(self).fullscreen == old(self).fullscreen,
    {
        match self.surface_under(self.pointer_location) {
            Some(t) => {
                let id = match t {
                    FocusTarget::Window { surface, .. } => surface,
                    FocusTarget::LayerSurface { surface, .. } => surface,
                    FocusTarget::Popup { surface, .. } => surface,
                };
                proof {
                    let k = topmost_index(self.space.elements@, self.pointer_location)->0;
                    assert(self.space.elements@[k].window.id == id);
                }
                let i = match self.space.find(id) {
                    Some(i) => i,
                    None => { return; },
                };
                let loc = self.space.elements[i].loc;
                let ghost s_before = self.space.elements@;
                proof { assert(self.space.location(id) == Some(loc)); }
                self.space.map_element(id, loc, true);
                let ghost sp_after = self.space;
                let last = self.space.elements.len() - 1;
                let ghost s = self.space.elements@;
                proof {
                    assert(index_of(s, id) == last as int);
                }
                let pending = self.space.elements[last].window.pending;
                self.configure_at(last, pending, true);
                proof {
                    lemma_update_placed(s, last as int, self.space.elements@[last as int]);
                    assert(s[last as int].loc == loc);
                    assert forall|o: u64| #[trigger] location_in(self.space.elements@, o) == location_in(s_before, o) by {
                        if o != id {
                            assert(sp_after.location(o) == location_in(s_before, o));
                            assert(location_in(s, o) == location_in(s_before, o));
                        }
                    }
                }
                self.keyboard_focus = Some(t);
            },
            None => {
                self.deactivate_all();
                self.keyboard_focus = None;
            },
        }
    }

    /// Deactivates every window and sends each a configure.
    fn deactivate_all(&mut self)
        requires
            old(self).wf(),
        ensures
            final(self).wf(),
            final(self).space.elements@.len() == old(self).space.elements@.len(),
            forall|j: int| 0 <= j < old(self).space.elements@.len() ==>
                deactivated(#[trigger] final(self).space.elements@[j], old(self).space.elements@[j]),
            forall|o: u64| #[trigger] final(self).space.location(o) == old(self).space.location(o),
            final(self).space.outputs@ == old(self).space.outputs@,
            final(self).resize_states == old(self).resize_states,
            final(self).grab == old(self).grab,
            final(self).pressed@ == old(self).pressed@,
            final(self).pointer_location == old(self).pointer_location,
            final(self).pointer_focus == old(self).pointer_focus,
            final(self).keyboard_focus == old(self).keyboard_focus,
            final(self).fullscreen == old(self).fullscreen,
    {
        let ghost s = self.space.elements@;
        let n = self.space.elements.len();
        let mut i: usize = 0;
        while i < n
            invariant
                self.wf(),
                n == s.len(),
                i <= n,
                self.space.elements@.len() == n,
                self.space.outputs@ == old(self).space.outputs@,
                self.resize_states == old(self).resize_states,
                self.grab == old(self).grab,
                self.pressed@ == old(self).pressed@,
                self.pointer_location == old(self).pointer_location,
                self.pointer_focus == old(self).pointer_focus,
                self.keyboard_focus == old(self).keyboard_focus,
                self.fullscreen == old(self).fullscreen,
                forall|j: int| 0 <= j < i ==> deactivated(#[trigger] self.space.elements@[j], s[j]),
                forall|j: int| i <= j < n ==> #[trigger] self.space.elements@[j] == s[j],
            decreases n - i,
        {
            let ghost cur = self.space.elements@;
            let mut pending = self.space.elements[i].window.pending;
            pending.activated = false;
            self.configure_at(i, pending, true);
            proof {
                lemma_update_placed(cur, i as int, self.space.elements@[i as int]);
                assert forall|j: int| 0 <= j < i + 1 implies deactivated(#[trigger] self.space.elements@[j], s[j]) by {
                    if j < i {
                        assert(self.space.elements@[j] == cur[j]);
                    }
                }
                assert forall|j: int| i + 1 <= j < n implies #[trigger] self.space.elements@[j] == s[j] by {
                    assert(self.space.elements@[j] == cur[j]);
                }
            }
            i = i + 1;
        }
        proof {
            lemma_same_places(self.space.elements@, s);
        }
    }

    /// A button changed state; returns the serial of the event.
    ///
    /// A press with no grab installed starts the implicit grab of the press,
    /// remembering where the pointer was and which client it was over. A
    /// release that leaves no button held ends whatever grab is installed;
    /// a resize grab then finishes its resize.
    pub fn pointer_button(&mut self, button: u32, pressed: bool) -> (r: u32)
        requires
            old(self).wf(),
        ensures
            final(self).wf(),
            r == serial_after(old(self).serial),
            !pressed ==> final(self).serial == r || final(self).serial == serial_after(r),
            final(self).space.outputs@ == old(self).space.outputs@,
            final(self).fullscreen == old(self).fullscreen,
            final(self).pointer_location == old(self).pointer_location,
            forall|o: u64| #[trigger] final(self).space.location(o) == old(self).space.location(o),
            pressed && old(self).grab is Some ==> {
                &&& final(self).space == old(self).space
                &&& final(self).keyboard_focus == old(self).keyboard_focus
            },
            pressed && old(self).grab is None ==> old(self).focused_by_click(final(self)),
            pressed ==> {
                &&& final(self).pressed@ == (if old(self).pressed@.contains(button) {
                    old(self).pressed@
                } else {
                    old(self).pressed@.push(button)
                })
                &&& final(self).resize_states == old(self).resize_states
                &&& final(self).grab == (match old(self).grab {
                    Some(g) => Some(g),
                    None => Some(ActiveGrab {
                        grab: PointerGrab::Click(GrabStartData {
                            location: old(self).pointer_location,
                            focus_client: match old(self).pointer_focus {
                                Some(t) => Some(t.client_spec()),
                                None => None,
                            },
                        }),
                        serial: r,
                    }),
                })
            },
            !pressed ==> {
                &&& final(self).pressed@ == old(self).pressed@.filter(|x: u32| x != button)
                &&& final(self).pressed@.len() == 0 ==> final(self).grab is None
                &&& final(self).pressed@.len() != 0 ==> {
                    &&& final(self).grab == old(self).grab
                    &&& final(self).space == old(self).space
                    &&& final(self).resize_states == old(self).resize_states
                }
                &&& final(self).pressed@.len() == 0 ==> match old(self).grab {
                    Some(ActiveGrab { grab: PointerGrab::Resize(g), .. }) =>
                        old(self).resize_ended(final(self), g, r, serial_after(r)),
                    _ => {
                        &&& final(self).space == old(self).space
                        &&& final(self).resize_states == old(self).resize_states
                    },
                }
            },
    {
        let serial = self.next_serial();
        if pressed {
            if !self.is_pressed(button) {
                self.pressed.push(button);
            }
            if self.grab.is_none() {
                self.click_focus();
                let focus_client = match self.pointer_focus {
                    Some(t) => {
                        let c = match t {
                            FocusTarget::Window { client, .. } => client,
                            FocusTarget::LayerSurface { client, .. } => client,
                            FocusTarget::Popup { client, .. } => client,
                        };
                        Some(c)
                    },
                    None => None,
                };
                self.grab = Some(ActiveGrab {
                    grab: PointerGrab::Click(GrabStartData { location: self.pointer_location, focus_client }),
                    serial,
                });
            }
        } else {
            self.release_button(button);
            if self.pressed.len() == 0 {
                let g = self.grab;
                self.grab = None;
                if let Some(ActiveGrab { grab: PointerGrab::Resize(rg), .. }) = g {
                    self.finish_resize(rg, serial);
                }
            }
        }
        serial
    }

    /// Whether a request of the client of `surface` for the input event
    /// `serial` may start a grab: the pointer must hold the grab of that
    /// event, the window must be mapped, and the grab must have begun over
    /// a surface of the window's client.
    pub open spec fn grab_allows(&self, surface: u64, serial: u32) -> bool {
        match self.grab {
            Some(g) => g.serial == serial && self.space.mapped(surface)
                && start_of(g.grab).focus_client == Some(self.space.window(surface).client),
            None => false,
        }
    }

    /// The start data of the pointer's grab when a request of the client
    /// of `surface` for the input event `serial` may use it (see
    /// `grab_allows`); `None` otherwise.
    pub fn check_grab(&self, surface: u64, serial: u32) -> (r: Option<GrabStartData>)
        requires
            self.wf(),
        ensures
            r == (if self.grab_allows(surface, serial) { Some(start_of(self.grab->0.grab)) } else { None }),
    {
        let g = match self.grab {
            Some(g) => g,
            None => { return None; },
        };
        if g.serial != serial {
            return None;
        }
        let start = match g.grab {
            PointerGrab::Click(d) => d,
            PointerGrab::Move(m) => m.start_data,
            PointerGrab::Resize(rg) => rg.start_data,
            PointerGrab::Popup(d, _) => d,
        };
        let i = match self.space.find(surface) {
            Some(i) => i,
            None => { return None; },
        };
        match start.focus_client {
            None => None,
            Some(c) => if self.space.elements[i].window.same_client_as(c) { Some(start) } else { None },
        }
    }

    /// A client asked to move its window interactively.
    ///
    /// Honoured only when the pointer holds the grab of the event with
    /// `serial`, the window is mapped, and the grab began over a surface of
    /// the window's client; otherwise nothing changes. A maximized window
    /// is first unmaximized and then follows from the pointer's location.
    pub fn move_request(&mut self, surface: u64, serial: u32) -> (r: bool)
        requires
            old(self).wf(),
        ensures
            final(self).wf(),
            r == old(self).grab_allows(surface, serial),
            !r ==> final(self).space == old(self).space && final(self).grab == old(self).grab,
            r ==> final(self).grab == Some(ActiveGrab {
                grab: PointerGrab::Move(MoveSurfaceGrab {
                    start_data: start_of(old(self).grab->0.grab),
                    window: surface,
                    initial_window_location: if old(self).space.window(surface).current.maximized {
                        old(self).pointer_location
                    } else {
                        old(self).space.location(surface)->0
                    },
                }),
                serial,
            }),
            r && !old(self).space.window(surface).current.maximized ==> final(self).space == old(self).space,
            r && old(self).space.window(surface).current.maximized ==> {
                &&& !final(self).space.window(surface).pending.maximized
                &&& final(self).space.window(surface).pending.size is None
                &&& final(self).space.window(surface).sent@.len() == old(self).space.window(surface).sent@.len() + 1
            },
            forall|o: u64| #[trigger] final(self).space.location(o) == old(self).space.location(o),
            final(self).resize_states == old(self).resize_states,
            final(self).pressed@ == old(self).pressed@,
            final(self).space.outputs@ == old(self).space.outputs@,
            final(self).fullscreen == old(self).fullscreen,
    {
        let start = match self.check_grab(surface, serial) {
            Some(d) => d,
            None => { return false; },
        };
        let i = match self.space.find(surface) {
            Some(i) => i,
            None => { return false; },
        };
        let mut initial = self.space.elements[i].loc;
        proof { assert(location_in(self.space.elements@, surface) == Some(initial)); }
        if self.space.elements[i].window.current.maximized {
            let ghost s = self.space.elements@;
            let mut pending = self.space.elements[i].window.pending;
            pending.maximized = false;
            pending.size = None;
            self.configure_at(i, pending, true);
            proof {
                lemma_update_placed(s, i as int, self.space.elements@[i as int]);
            }
            initial = self.pointer_location;
        }
        self.grab = Some(ActiveGrab {
            grab: PointerGrab::Move(MoveSurfaceGrab { start_data: start, window: surface, initial_window_location: initial }),
            serial,
        });
        true
    }

    /// A client asked to resize its window interactively by `edges`.
    ///
    /// Honoured under the same conditions as a move. The window's location
    /// and size become the initial rectangle, its resize state becomes
    /// `Resizing`, and a resize grab is installed.
    pub fn resize_request(&mut self, surface: u64, serial: u32, edges: ResizeEdge) -> (r: bool)
        requires
            old(self).wf(),
        ensures
            final(self).wf(),
            r == old(self).grab_allows(surface, serial),
            !r ==> final(self).space == old(self).space && final(self).grab == old(self).grab
                && final(self).resize_states == old(self).resize_states,
            r ==> {
                let rect = Rectangle {
                    loc: old(self).space.location(surface)->0,
                    size: old(self).space.window(surface).geometry,
                };
                &&& final(self).grab == Some(ActiveGrab {
                    grab: PointerGrab::Resize(ResizeSurfaceGrab {
                        start_data: start_of(old(self).grab->0.grab),
                        window: surface,
                        edges,
                        initial_rect: rect,
                        last_window_size: rect.size,
                    }),
                    serial,
                })
                &&& final(self).resize_states.state(surface) == ResizeState::Resizing(ResizeData { edges, initial_rect: rect })
                &&& forall|o: u64| o != surface ==> #[trigger] final(self).resize_states.state(o) == old(self).resize_states.state(o)
                &&& final(self).space == old(self).space
            },
            final(self).pressed@ == old(self).pressed@,
            final(self).fullscreen == old(self).fullscreen,
    {
        let start = match self.check_grab(surface, serial) {
            Some(d) => d,
            None => { return false; },
        };
        let i = match self.space.find(surface) {
            Some(i) => i,
            None => { return false; },
        };
        let rect = Rectangle { loc: self.space.elements[i].loc, size: self.space.elements[i].window.geometry };
        self.resize_states.set(surface, ResizeState::Resizing(ResizeData { edges, initial_rect: rect }));
        self.grab = Some(ActiveGrab {
            grab: PointerGrab::Resize(ResizeSurfaceGrab {
                start_data: start,
                window: surface,
                edges,
                initial_rect: rect,
                last_window_size: rect.size,
            }),
            serial,
        });
        true
    }

    /// Hands the acknowledgment of `serial` to the window at position `i`.
    fn ack_at(&mut self, i: usize, serial: u32)
        requires
            old(self).wf(),
            i < old(self).space.elements@.len(),
        ensures
            final(self).wf(),
            final(self).space.elements@ == old(self).space.elements@.update(i as int, final(self).space.elements@[i as int]),
            final(self).space.elements@[i as int].loc == old(self).space.elements@[i as int].loc,
            final(self).space.elements@[i as int].window.id == old(self).space.elements@[i as int].window.id,
            final(self).space.elements@[i as int].window.current == old(self).space.elements@[i as int].window.current,
            acked_configure(final(self).space.elements@[i as int].window, old(self).space.elements@[i as int].window, serial),
            final(self).space.elements@[i as int].window.pending == old(self).space.elements@[i as int].window.pending,
            final(self).space.elements@[i as int].window.geometry == old(self).space.elements@[i as int].window.geometry,
            final(self).space.outputs@ == old(self).space.outputs@,
            final(self).resize_states == old(self).resize_states,
            final(self).grab == old(self).grab,
            final(self).pressed@ == old(self).pressed@,
            final(self).pointer_location == old(self).pointer_location,
            final(self).fullscreen == old(self).fullscreen,
            final(self).serial == old(self).serial,
    {
        let ghost s = self.space.elements@;
        let mut p = self.space.take_at(i);
        p.window.ack_configure(serial);
        let ghost pp = p;
        self.space.put_at(i, p);
        proof {
            lemma_update_placed(s, i as int, pp);
        }
    }

    /// Hands a commit with geometry size `geometry` to the window at
    /// position `i`.
    fn commit_at(&mut self, i: usize, geometry: Size)
        requires
            old(self).wf(),
            i < old(self).space.elements@.len(),
        ensures
            final(self).wf(),
            final(self).space.elements@ == old(self).space.elements@.update(i as int, final(self).space.elements@[i as int]),
            final(self).space.elements@[i as int].loc == old(self).space.elements@[i as int].loc,
            final(self).space.elements@[i as int].window.id == old(self).space.elements@[i as int].window.id,
            final(self).space.elements@[i as int].window.geometry == geometry,
            final(self).space.elements@[i as int].window.sent@ == old(self).space.elements@[i as int].window.sent@,
            committed(final(self).space.elements@[i as int].window, old(self).space.elements@[i as int].window, geometry),
            final(self).space.elements@[i as int].window.pending == old(self).space.elements@[i as int].window.pending,
            final(self).space.elements@[i as int].window.current == (match old(self).space.elements@[i as int].window.acked {
                Some(st) => st,
                None => old(self).space.elements@[i as int].window.current,
            }),
            final(self).space.outputs@ == old(self).space.outputs@,
            final(self).resize_states == old(self).resize_states,
            final(self).grab == old(self).grab,
            final(self).pressed@ == old(self).pressed@,
            final(self).pointer_location == old(self).pointer_location,
            final(self).fullscreen == old(self).fullscreen,
            final(self).serial == old(self).serial,
    {
        let ghost s = self.space.elements@;
        let mut p = self.space.take_at(i);
        p.window.commit(geometry);
        let ghost pp = p;
        self.space.put_at(i, p);
        proof {
            lemma_update_placed(s, i as int, pp);
        }
    }

    /// The client of `surface` acknowledged the configure with `serial`.
    ///
    /// The window records the acknowledgment. A resize waiting for its
    /// final acknowledgment moves on to wait for the commit when the serial
    /// is at or after the one it waits for and the window's current state
    /// still shows resizing; otherwise the resize state stays.
    pub fn ack_configure(&mut self, surface: u64, serial: u32)
        requires
            old(self).wf(),
        ensures
            final(self).wf(),
            forall|o: u64| #[trigger] final(self).space.location(o) == old(self).space.location(o),
            old(self).space.mapped(surface) ==> final(self).space.mapped(surface),
            old(self).space.mapped(surface) ==> acked_configure(final(self).space.window(surface), old(self).space.window(surface), serial),
            old(self).space.mapped(surface) ==> final(self).resize_states.state(surface) == after_ack(
                old(self).resize_states.state(surface), serial, old(self).space.window(surface).current.resizing),
            !old(self).space.mapped(surface) ==> final(self).space == old(self).space
                && final(self).resize_states == old(self).resize_states,
            forall|o: u64| o != surface ==> #[trigger] final(self).resize_states.state(o) == old(self).resize_states.state(o),
            final(self).grab == old(self).grab,
            final(self).fullscreen == old(self).fullscreen,
    {
        match self.space.find(surface) {
            None => {},
            Some(i) => {
                let ghost s = self.space.elements@;
                let resizing = self.space.elements[i].window.current.resizing;
                self.ack_at(i, serial);
                proof {
                    lemma_update_placed(s, i as int, self.space.elements@[i as int]);
                }
                let mut st = self.resize_states.get(surface);
                st.ack_configure(serial, resizing);
                self.resize_states.set(surface, st);
            },
        }
    }

    /// The client of `surface` committed with geometry size `geometry`.
    ///
    /// The window takes the acknowledged state and the new size. When a
    /// resize dragged its left or top edge, the window moves so that the
    /// opposite edges stay where they were: `x` becomes the initial `x`
    /// plus the change of width, `y` the initial `y` plus the change of
    /// height. A resize that was waiting for this commit is over.
    pub fn commit(&mut self, surface: u64, geometry: Size)
        requires
            old(self).wf(),
        ensures
            final(self).wf(),
            old(self).space.mapped(surface) ==> {
                &&& final(self).resize_states.state(surface) == after_commit(old(self).resize_states.state(surface))
                &&& final(self).space.mapped(surface)
                &&& committed(final(self).space.window(surface), old(self).space.window(surface), geometry)
                &&& final(self).space.window(surface).geometry == geometry
                &&& final(self).space.window(surface).sent@ == old(self).space.window(surface).sent@
                &&& final(self).space.window(surface).pending == old(self).space.window(surface).pending
                &&& (match commit_result(old(self).resize_states.state(surface)) {
                    Some((edges, initial)) => anchored_location(old(self).space.location(surface)->0, edges, initial, geometry)
                        == old(self).space.location(surface)->0,
                    None => true,
                }) ==> {
                    let i = index_of(old(self).space.elements@, surface);
                    &&& final(self).space.elements@.len() == old(self).space.elements@.len()
                    &&& final(self).space.elements@[i].loc == old(self).space.elements@[i].loc
                    &&& forall|j: int| 0 <= j < old(self).space.elements@.len() && j != i
                        ==> #[trigger] final(self).space.elements@[j] == old(self).space.elements@[j]
                }
                &&& final(self).space.location(surface) == match commit_result(old(self).resize_states.state(surface)) {
                    Some((edges, initial)) => Some(anchored_location(old(self).space.location(surface)->0, edges, initial, geometry)),
                    None => old(self).space.location(surface),
                }
            },
            !old(self).space.mapped(surface) ==> final(self).space == old(self).space
                && final(self).resize_states == old(self).resize_states,
            forall|o: u64| o != surface ==> #[trigger] final(self).space.location(o) == old(self).space.location(o),
            forall|o: u64| o != surface ==> #[trigger] final(self).resize_states.state(o) == old(self).resize_states.state(o),
            final(self).grab == old(self).grab,
            final(self).fullscreen == old(self).fullscreen,
    {
        match self.space.find(surface) {
            None => {},
            Some(i) => {
                let ghost s = self.space.elements@;
                self.commit_at(i, geometry);
                proof {
                    lemma_update_placed(s, i as int, self.space.elements@[i as int]);
                }
                let loc = self.space.elements[i].loc;
                let mut st = self.resize_states.get(surface);
                let res = st.commit();
                self.resize_states.set(surface, st);
                if let Some((edges, initial)) = res {
                    if let Some(new_loc) = anchor_location(loc, edges, initial, geometry) {
                        if new_loc.x != loc.x || new_loc.y != loc.y {
                            let ghost s2 = self.space.elements@;
                            self.space.map_element(surface, new_loc, false);
                            proof {
                                assert(has_window(s2, surface));
                            }
                        } else {
                            assert(new_loc == loc);
                        }
                    }
                }
            },
        }
    }

    /// The first output that the window with surface `surface` overlaps.
    pub open spec fn overlapped_output(&self, surface: u64) -> Option<OutputEntry> {
        let outs = self.space.outputs@;
        let rect = placed_rect(self.space.elements@[index_of(self.space.elements@, surface)]);
        if exists|k: int| 0 <= k < outs.len() && outs[k].geometry.overlaps_spec(rect) {
            let k = choose|k: int| 0 <= k < outs.len() && outs[k].geometry.overlaps_spec(rect)
                && forall|j: int| 0 <= j < k ==> !(#[trigger] outs[j]).geometry.overlaps_spec(rect);
            Some(outs[k])
        } else {
            None
        }
    }

    /// The output that a window is maximized on: the first output it
    /// overlaps, or else the first one.
    pub open spec fn home_output(&self, surface: u64) -> Option<OutputEntry> {
        match self.overlapped_output(surface) {
            Some(o) => Some(o),
            None => if self.space.outputs@.len() > 0 { Some(self.space.outputs@[0]) } else { None },
        }
    }

    fn find_overlapped_output(&self, i: usize) -> (r: Option<OutputEntry>)
        requires
            self.wf(),
            i < self.space.elements@.len(),
        ensures
            r == self.overlapped_output(self.space.elements@[i as int].window.id),
    {
        let ghost surface = self.space.elements@[i as int].window.id;
        proof {
            assert(has_window(self.space.elements@, surface));
            assert(index_of(self.space.elements@, surface) == i);
        }
        let rect = Rectangle { loc: self.space.elements[i].loc, size: self.space.elements[i].window.geometry };
        let n = self.space.outputs.len();
        let mut k: usize = 0;
        while k < n
            invariant
                n == self.space.outputs@.len(),
                k <= n,
                rect == placed_rect(self.space.elements@[i as int]),
                index_of(self.space.elements@, surface) == i,
                surface == self.space.elements@[i as int].window.id,
                i < self.space.elements@.len(),
                forall|j: int| 0 <= j < k ==> !(#[trigger] self.space.outputs@[j]).geometry.overlaps_spec(rect),
            decreases n - k,
        {
            let o = self.space.outputs[k];
            if o.geometry.overlaps(&rect) {
                proof {
                    let outs = self.space.outputs@;
                    assert(exists|m: int| 0 <= m < outs.len() && outs[m].geometry.overlaps_spec(rect));
                    assert(exists|m: int| 0 <= m < outs.len() && outs[m].geometry.overlaps_spec(rect)
                        && forall|j: int| 0 <= j < m ==> !(#[trigger] outs[j]).geometry.overlaps_spec(rect));
                    let m = choose|m: int| 0 <= m < outs.len() && outs[m].geometry.overlaps_spec(rect)
                        && forall|j: int| 0 <= j < m ==> !(#[trigger] outs[j]).geometry.overlaps_spec(rect);
                    assert(0 <= k < outs.len() && outs[k as int].geometry.overlaps_spec(rect)
                        && forall|j: int| 0 <= j < k ==> !(#[trigger] outs[j]).geometry.overlaps_spec(rect));
                    if m < k { assert(!outs[m].geometry.overlaps_spec(rect)); }
                    if m > k { assert(!outs[k as int].geometry.overlaps_spec(rect)); }
                    assert(m == k);
                    assert(placed_rect(self.space.elements@[index_of(self.space.elements@, surface)]) == rect);
                    assert(self.overlapped_output(surface) == Some(outs[k as int]));
                }
                return Some(o);
            }
            k = k + 1;
        }
        None
    }

    fn find_home_output(&self, i: usize) -> (r: Option<OutputEntry>)
        requires
            self.wf(),
            i < self.space.elements@.len(),
        ensures
            r == self.home_output(self.space.elements@[i as int].window.id),
    {
        match self.find_overlapped_output(i) {
            Some(o) => Some(o),
            None => if self.space.outputs.len() > 0 { Some(self.space.outputs[0]) } else { None },
        }
    }

    /// A client asked to maximize `surface`: on the window's home output
    /// (see `home_output`), the window is flagged maximized, asked to take
    /// the output's size, and placed at the output's origin. Nothing happens
    /// when the window is not mapped or there is no output.
    pub fn maximize_request(&mut self, surface: u64)
        requires
            old(self).wf(),
        ensures
            final(self).wf(),
            old(self).space.mapped(surface) && old(self).home_output(surface) is Some ==> {
                let o = old(self).home_output(surface)->0;
                &&& final(self).space.location(surface) == Some(o.geometry.loc)
                &&& final(self).space.window(surface).pending.maximized
                &&& final(self).space.window(surface).pending.size == Some(o.geometry.size)
                &&& final(self).space.window(surface).sent@.len() == old(self).space.window(surface).sent@.len() + 1
                &&& final(self).space.window(surface).sent@.last().state.maximized
                &&& final(self).space.window(surface).sent@.last().state.size == Some(o.geometry.size)
            },
            !(old(self).space.mapped(surface) && old(self).home_output(surface) is Some) ==>
                final(self).space == old(self).space,
            forall|o: u64| o != surface ==> #[trigger] final(self).space.location(o) == old(self).space.location(o),
            final(self).grab == old(self).grab,
            final(self).resize_states == old(self).resize_states,
            final(self).fullscreen == old(self).fullscreen,
    {
        let i = match self.space.find(surface) {
            Some(i) => i,
            None => { return; },
        };
        let o = match self.find_home_output(i) {
            Some(o) => o,
            None => { return; },
        };
        let ghost s = self.space.elements@;
        let mut pending = self.space.elements[i].window.pending;
        pending.maximized = true;
        pending.size = Some(o.geometry.size);
        self.configure_at(i, pending, true);
        proof {
            lemma_update_placed(s, i as int, self.space.elements@[i as int]);
        }
        let ghost s2 = self.space.elements@;
        self.space.map_element(surface, o.geometry.loc, true);
        proof {
            assert(has_window(s2, surface));
        }
    }

    /// A client asked to unmaximize `surface`: the maximized flag is
    /// cleared, the size left to the client, and a configure sent.
    pub fn unmaximize_request(&mut self, surface: u64)
        requires
            old(self).wf(),
        ensures
            final(self).wf(),
            old(self).space.mapped(surface) ==> {
                &&& !final(self).space.window(surface).pending.maximized
                &&& final(self).space.window(surface).pending.size is None
                &&& final(self).space.window(surface).sent@.len() == old(self).space.window(surface).sent@.len() + 1
                &&& final(self).space.window(surface).sent@.last().state == final(self).space.window(surface).pending
            },
            !old(self).space.mapped(surface) ==> final(self).space == old(self).space,
            forall|o: u64| #[trigger] final(self).space.location(o) == old(self).space.location(o),
            final(self).grab == old(self).grab,
            final(self).resize_states == old(self).resize_states,
            final(self).fullscreen == old(self).fullscreen,
    {
        let i = match self.space.find(surface) {
            Some(i) => i,
            None => { return; },
        };
        let ghost s = self.space.elements@;
        let mut pending = self.space.elements[i].window.pending;
        pending.maximized = false;
        pending.size = None;
        self.configure_at(i, pending, true);
        proof {
            lemma_update_placed(s, i as int, self.space.elements@[i as int]);
        }
    }

    /// The output a window goes fullscreen on: the named output when it is
    /// registered (its first entry), none when a named output is not; with
    /// no output named, the first output of the space.
    pub open spec fn fullscreen_target(&self, surface: u64, output: Option<u64>) -> Option<OutputEntry> {
        let outs = self.space.outputs@;
        match output {
            Some(o) => if exists|k: int| 0 <= k < outs.len() && outs[k].id == o {
                let k = choose|k: int| 0 <= k < outs.len() && outs[k].id == o
                    && forall|j: int| 0 <= j < k ==> (#[trigger] outs[j]).id != o;
                Some(outs[k])
            } else {
                None
            },
            None => if outs.len() > 0 { Some(outs[0]) } else { None },
        }
    }

    fn find_fullscreen_target(&self, i: usize, output: Option<u64>) -> (r: Option<OutputEntry>)
        requires
            self.wf(),
            i < self.space.elements@.len(),
        ensures
            r == self.fullscreen_target(self.space.elements@[i as int].window.id, output),
    {
        match output {
            Some(o) => match self.space.output_geometry(o) {
                Some(g) => {
                    proof {
                        let outs = self.space.outputs@;
                        let k = choose|k: int| 0 <= k < outs.len() && outs[k] == (OutputEntry { id: o, geometry: g })
                            && forall|j: int| 0 <= j < k ==> #[trigger] outs[j].id != o;
                        assert(exists|m: int| 0 <= m < outs.len() && outs[m].id == o);
                        assert(exists|m: int| 0 <= m < outs.len() && outs[m].id == o
                            && forall|j: int| 0 <= j < m ==> (#[trigger] outs[j]).id != o);
                        let m = choose|m: int| 0 <= m < outs.len() && outs[m].id == o
                            && forall|j: int| 0 <= j < m ==> (#[trigger] outs[j]).id != o;
                        if m < k { assert(outs[m].id != o); }
                        if m > k { assert(outs[k].id != o); }
                        assert(m == k);
                    }
                    Some(OutputEntry { id: o, geometry: g })
                },
                None => None,
            },
            None => if self.space.outputs.len() > 0 { Some(self.space.outputs[0]) } else { None },
        }
    }

    /// A client asked to present `surface` fullscreen on `output`, or, with
    /// none named, on the first output of the space. The window is
    /// flagged fullscreen, asked to take the output's size, sent a
    /// configure, and becomes the output's fullscreen surface, which the
    /// output then presents alone. The request is ignored, with nothing
    /// changed, when the window is not mapped, when the named output is not
    /// registered, or when none is named and the space has no output.
    pub fn fullscreen_request(&mut self, surface: u64, output: Option<u64>)
        requires
            old(self).wf(),
        ensures
            final(self).wf(),
            old(self).space.mapped(surface) && old(self).fullscreen_target(surface, output) is Some ==> {
                let o = old(self).fullscreen_target(surface, output)->0;
                &&& final(self).fullscreen.state(o.id) == Some(surface)
                &&& forall|p: u64| p != o.id ==> #[trigger] final(self).fullscreen.state(p) == old(self).fullscreen.state(p)
                &&& final(self).space.window(surface).pending.fullscreen
                &&& final(self).space.window(surface).pending.size == Some(o.geometry.size)
                &&& final(self).space.window(surface).pending.fullscreen_output == Some(o.id)
                &&& final(self).space.window(surface).sent@.len() == old(self).space.window(surface).sent@.len() + 1
                &&& final(self).space.window(surface).sent@.last().state == final(self).space.window(surface).pending
            },
            !(old(self).space.mapped(surface) && old(self).fullscreen_target(surface, output) is Some) ==> {
                &&& final(self).space == old(self).space
                &&& final(self).fullscreen == old(self).fullscreen
            },
            forall|o: u64| #[trigger] final(self).space.location(o) == old(self).space.location(o),
            final(self).grab == old(self).grab,
            final(self).resize_states == old(self).resize_states,
    {
        let i = match self.space.find(surface) {
            Some(i) => i,
            None => { return; },
        };
        let o = match self.find_fullscreen_target(i, output) {
            Some(o) => o,
            None => { return; },
        };
        let ghost s = self.space.elements@;
        let mut pending = self.space.elements[i].window.pending;
        pending.fullscreen = true;
        pending.size = Some(o.geometry.size);
        pending.fullscreen_output = Some(o.id);
        self.configure_at(i, pending, true);
        proof {
            lemma_update_placed(s, i as int, self.space.elements@[i as int]);
        }
        self.fullscreen.set(o.id, Some(surface));
    }

    /// A client asked `surface` to leave fullscreen. The flag, the size and
    /// the output are cleared from its pending state; when it had an
    /// output, it is sent a configure, and the output's fullscreen surface
    /// is detached. Returns the output whose buffers must be reset for a
    /// full redraw: the one whose fullscreen surface was detached.
    pub fn unfullscreen_request(&mut self, surface: u64) -> (r: Option<u64>)
        requires
            old(self).wf(),
        ensures
            final(self).wf(),
            !old(self).space.mapped(surface) ==> r is None && final(self).space == old(self).space
                && final(self).fullscreen == old(self).fullscreen,
            old(self).space.mapped(surface) ==> !final(self).space.window(surface).pending.fullscreen,
            old(self).space.mapped(surface) ==> final(self).space.window(surface).pending.size is None,
            old(self).space.mapped(surface) ==> final(self).space.window(surface).pending.fullscreen_output is None,
            old(self).space.mapped(surface) ==> final(self).space.window(surface).sent@.len()
                == old(self).space.window(surface).sent@.len()
                + (if old(self).space.window(surface).pending.fullscreen_output is Some { 1int } else { 0int }),
            old(self).space.mapped(surface) ==> r == (match old(self).space.window(surface).pending.fullscreen_output {
                Some(o) => if old(self).fullscreen.state(o) is Some { Some(o) } else { None },
                None => None,
            }),
            old(self).space.mapped(surface) ==> match old(self).space.window(surface).pending.fullscreen_output {
                Some(o) => {
                    &&& final(self).fullscreen.state(o) is None
                    &&& forall|p: u64| p != o ==> #[trigger] final(self).fullscreen.state(p) == old(self).fullscreen.state(p)
                },
                None => final(self).fullscreen == old(self).fullscreen,
            },
            forall|o: u64| #[trigger] final(self).space.location(o) == old(self).space.location(o),
            final(self).grab == old(self).grab,
            final(self).resize_states == old(self).resize_states,
    {
        let i = match self.space.find(surface) {
            Some(i) => i,
            None => { return None; },
        };
        let ghost s = self.space.elements@;
        let mut pending = self.space.elements[i].window.pending;
        let out = pending.fullscreen_output;
        pending.fullscreen = false;
        pending.size = None;
        pending.fullscreen_output = None;
        self.configure_at(i, pending, out.is_some());
        proof {
            lemma_update_placed(s, i as int, self.space.elements@[i as int]);
        }
        match out {
            Some(o) => {
                let attached = self.fullscreen.get_surface(o).is_some();
                self.fullscreen.set(o, None);
                if attached { Some(o) } else { None }
            },
            None => None,
        }
    }

    /// The window presented fullscreen on `output`, if any.
    pub fn fullscreen_surface(&self, output: u64) -> (r: Option<u64>)
        requires
            self.wf(),
        ensures
            r == self.fullscreen.state(output),
    {
        self.fullscreen.get_surface(output)
    }

    /// Registers a layer surface of `client` on `output` (once: a surface
    /// already registered is left as it is).
    pub fn map_layer(&mut self, surface: u64, client: u64, output: u64)
        requires
            old(self).wf(),
        ensures
            final(self).wf(),
            (exists|k: int| 0 <= k < old(self).layers@.len() && old(self).layers@[k].surface == surface)
                ==> final(self).layers@ == old(self).layers@,
            !(exists|k: int| 0 <= k < old(self).layers@.len() && old(self).layers@[k].surface == surface)
                ==> final(self).layers@ == old(self).layers@.push(LayerSurface { surface, client, output, last_frame_ms: None }),
            final(self).space == old(self).space,
            final(self).grab == old(self).grab,
    {
        if self.find_layer(surface).is_none() {
            self.layers.push(LayerSurface { surface, client, output, last_frame_ms: None });
        }
    }

    /// The first registered layer surface `surface`, with its client.
    pub open spec fn layer_of(&self, surface: u64) -> Option<LayerSurface> {
        let l = self.layers@;
        if exists|k: int| 0 <= k < l.len() && l[k].surface == surface {
            let k = choose|k: int| 0 <= k < l.len() && l[k].surface == surface
                && forall|j: int| 0 <= j < k ==> (#[trigger] l[j]).surface != surface;
            Some(l[k])
        } else {
            None
        }
    }

    fn find_layer(&self, surface: u64) -> (r: Option<LayerSurface>)
        ensures
            r == self.layer_of(surface),
    {
        let n = self.layers.len();
        let mut i: usize = 0;
        while i < n
            invariant
                n == self.layers@.len(),
                i <= n,
                forall|j: int| 0 <= j < i ==> (#[trigger] self.layers@[j]).surface != surface,
            decreases n - i,
        {
            if self.layers[i].surface == surface {
                proof {
                    let l = self.layers@;
                    assert(exists|m: int| 0 <= m < l.len() && l[m].surface == surface
                        && forall|j: int| 0 <= j < m ==> (#[trigger] l[j]).surface != surface);
                    let m = choose|m: int| 0 <= m < l.len() && l[m].surface == surface
                        && forall|j: int| 0 <= j < m ==> (#[trigger] l[j]).surface != surface;
                    if m < i { assert(l[m].surface != surface); }
                    if m > i { assert(l[i as int].surface != surface); }
                }
                return Some(self.layers[i]);
            }
            i = i + 1;
        }
        None
    }

    /// The input target that a popup rooted at surface `root` belongs to:
    /// the mapped window with that surface, or else the layer surface.
    pub open spec fn root_target(&self, root: u64) -> Option<FocusTarget> {
        if self.space.mapped(root) {
            Some(FocusTarget::Window { surface: root, client: self.space.window(root).client })
        } else {
            match self.layer_of(root) {
                Some(l) => Some(FocusTarget::LayerSurface { surface: root, client: l.client }),
                None => None,
            }
        }
    }

    /// Whether a grab started by the event `held` lets a popup grab for
    /// `serial` (nested in the popup grab of `previous_serial`) go on.
    pub open spec fn compatible(held: Option<u32>, serial: u32, previous_serial: Option<u32>) -> bool {
        match held {
            Some(h) => h == serial || h == (match previous_serial {
                Some(p) => p,
                None => serial,
            }),
            None => true,
        }
    }

    /// A client asked for a popup grab on the popup rooted at surface
    /// `root`, for the input event `serial` (`previous_serial`: the serial
    /// of the popup grab this one nests in, if any).
    ///
    /// Refused, with nothing changed, when the root is neither a mapped
    /// window nor a layer surface, or when the keyboard or the pointer
    /// already holds a grab started by an event other than `serial` or
    /// `previous_serial`. Otherwise the keyboard focuses the root and takes
    /// the popup grab, and so does the pointer.
    pub fn popup_grab(&mut self, root: u64, serial: u32, previous_serial: Option<u32>) -> (r: bool)
        requires
            old(self).wf(),
        ensures
            final(self).wf(),
            r == (old(self).root_target(root) is Some
                && Self::compatible(old(self).keyboard_grab, serial, previous_serial)
                && Self::compatible(match old(self).grab {
                    Some(g) => Some(g.serial),
                    None => None,
                }, serial, previous_serial)),
            r ==> final(self).keyboard_focus == old(self).root_target(root),
            r ==> final(self).keyboard_grab == Some(serial),
            r ==> final(self).grab == Some(ActiveGrab {
                grab: PointerGrab::Popup(GrabStartData {
                    location: old(self).pointer_location,
                    focus_client: Some(old(self).root_target(root)->0.client_spec()),
                }, root),
                serial,
            }),
            !r ==> {
                &&& final(self).grab == old(self).grab
                &&& final(self).keyboard_focus == old(self).keyboard_focus
                &&& final(self).keyboard_grab == old(self).keyboard_grab
            },
            final(self).space == old(self).space,
            final(self).resize_states == old(self).resize_states,
            final(self).fullscreen == old(self).fullscreen,
    {
        let target = match self.space.find(root) {
            Some(i) => FocusTarget::Window { surface: root, client: self.space.elements[i].window.client },
            None => match self.find_layer(root) {
                Some(l) => FocusTarget::LayerSurface { surface: root, client: l.client },
                None => { return false; },
            },
        };
        let prev = match previous_serial {
            Some(p) => p,
            None => serial,
        };
        if let Some(k) = self.keyboard_grab {
            if !(k == serial || k == prev) {
                return false;
            }
        }
        if self.grab.is_some() && !(self.has_grab(serial) || self.has_grab(prev)) {
            return false;
        }
        let client = match target {
            FocusTarget::Window { client, .. } => client,
            FocusTarget::LayerSurface { client, .. } => client,
            FocusTarget::Popup { client, .. } => client,
        };
        self.keyboard_focus = Some(target);
        self.keyboard_grab = Some(serial);
        self.grab = Some(ActiveGrab {
            grab: PointerGrab::Popup(GrabStartData { location: self.pointer_location, focus_client: Some(client) }, root),
            serial,
        });
        true
    }

    /// The popup grab ended (the popups were dismissed): the keyboard grab
    /// is released, and so is a popup grab of the pointer.
    pub fn popup_ungrab(&mut self)
        requires
            old(self).wf(),
        ensures
            final(self).wf(),
            final(self).keyboard_grab is None,
            final(self).grab == (match old(self).grab {
                Some(ActiveGrab { grab: PointerGrab::Popup(..), .. }) => None,
                g => g,
            }),
            final(self).space == old(self).space,
            final(self).resize_states == old(self).resize_states,
    {
        self.keyboard_grab = None;
        if let Some(ActiveGrab { grab: PointerGrab::Popup(..), .. }) = self.grab {
            self.grab = None;
        }
    }

    /// Drops every window that is no longer alive from the space. This is
    /// the only place where windows are dropped; the fullscreen table is
    /// left as it is (a fullscreen surface that is gone is no longer drawn,
    /// see `plan_frame`).
    pub fn refresh(&mut self)
        requires
            old(self).wf(),
        ensures
            final(self).wf(),
            final(self).space.elements@ == crate::space::live(old(self).space.elements@),
            final(self).space.outputs@ == old(self).space.outputs@,
            final(self).grab == old(self).grab,
            final(self).resize_states == old(self).resize_states,
            final(self).fullscreen == old(self).fullscreen,
    {
        self.space.refresh();
    }
}

/// `a` is `b` deactivated and sent a configure of its new pending state.
pub open spec fn deactivated(a: Placed, b: Placed) -> bool {
    &&& a.loc == b.loc
    &&& same_but_state(a.window, b.window)
    &&& a.window.geometry == b.window.geometry
    &&& a.window.pending == (ToplevelState { activated: false, ..b.window.pending })
    &&& a.window.sent@.len() == b.window.sent@.len() + 1
    &&& a.window.sent@.last().state == a.window.pending
}

/// Two sequences with the same surfaces at the same locations, position by
/// position, place every surface alike.
pub proof fn lemma_same_places(a: Seq<Placed>, b: Seq<Placed>)
    requires
        ids_unique(a),
        ids_unique(b),
        a.len() == b.len(),
        forall|j: int| 0 <= j < a.len() ==> (#[trigger] a[j]).window.id == b[j].window.id && a[j].loc == b[j].loc,
    ensures
        forall|o: u64| #[trigger] location_in(a, o) == location_in(b, o),
{
    assert forall|o: u64| #[trigger] location_in(a, o) == location_in(b, o) by {
        if has_window(b, o) {
            let k = index_of(b, o);
            assert(a[k].window.id == o);
            assert(has_window(a, o));
        }
        if has_window(a, o) {
            let k = index_of(a, o);
            assert(b[k].window.id == o);
            assert(has_window(b, o));
        }
        if has_window(a, o) && has_window(b, o) {
            let ka = index_of(a, o);
            let kb = index_of(b, o);
            assert(b[ka].window.id == o);
            assert(ka == kb);
            assert(a[ka].loc == b[ka].loc);
        }
    }
}

/// The two windows agree in identity, owner, kind, liveness, limits and
/// handshake bookkeeping (acknowledged and current state).
pub open spec fn same_but_state(a: AvWindow, b: AvWindow) -> bool {
    &&& a.id == b.id
    &&& a.client == b.client
    &&& a.kind == b.kind
    &&& a.alive == b.alive
    &&& a.min_size == b.min_size
    &&& a.max_size == b.max_size
    &&& a.current == b.current
    &&& a.acked == b.acked
}

} // verus!
