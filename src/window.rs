use vstd::prelude::*;
use crate::geometry::{Point, Size, Rectangle};

verus! {

/// Which protocol a window speaks: a native toplevel, or an X11 window
/// proxied through XWayland.
#[derive(Clone, Copy, Debug, PartialEq, Eq, Structural)]
pub enum WindowKind {
    Wayland,
    X11,
}

/// The toplevel state flags and size that a configure carries.
#[derive(Clone, Copy, Debug, PartialEq, Eq, Structural)]
pub struct ToplevelState {
    pub activated: bool,
    pub maximized: bool,
    pub fullscreen: bool,
    pub resizing: bool,
    /// The size asked of the client; `None` lets the client choose.
    pub size: Option<Size>,
    /// The output a fullscreen window fills.
    pub fullscreen_output: Option<u64>,
}

/// A configure sent to a client, which the client acknowledges by serial.
#[derive(Clone, Copy, Debug, PartialEq, Eq, Structural)]
pub struct Configure {
    pub serial: u32,
    pub state: ToplevelState,
}

/// A window: the unit the space places, native or proxied.
///
/// Both kinds answer the same questions (surface, geometry, liveness,
/// activation); only resizing tells them apart, since an X11 window is
/// reconfigured directly with no acknowledgment.
#[derive(Debug)]
pub struct AvWindow {
    /// The identity of the window's surface.
    pub id: u64,
    /// The client that owns the surface.
    pub client: u64,
    pub kind: WindowKind,
    pub alive: bool,
    /// The size of the window geometry, as last committed.
    pub geometry: Size,
    /// The client's declared minimum size (0: no minimum).
    pub min_size: Size,
    /// The client's declared maximum size (0: no maximum).
    pub max_size: Size,
    /// The state the next configure will carry.
    pub pending: ToplevelState,
    /// The state the client has acknowledged and committed.
    pub current: ToplevelState,
    /// The state of the last configure acknowledged, until the client commits.
    pub acked: Option<ToplevelState>,
    /// Configures sent and not acknowledged yet, oldest first.
    pub sent: Vec<Configure>,
    /// When the window was last sent a frame callback, in milliseconds.
    pub last_frame_ms: Option<u64>,
}

/// Whether a surface is due a frame callback at `now_ms`: it never got
/// one, or the last one is at least `throttle_ms` old.
pub open spec fn frame_due_spec(now_ms: u64, last_ms: Option<u64>, throttle_ms: u64) -> bool {
    match last_ms {
        None => true,
        Some(l) => l <= now_ms && now_ms - l >= throttle_ms,
    }
}

/// `a` is `b` after the client acknowledged the configure with `serial`:
/// when `b` had sent it, its state is the acknowledged one and it and
/// every earlier configure are dropped; otherwise nothing changed.
pub open spec fn acked_configure(a: AvWindow, b: AvWindow, serial: u32) -> bool {
    &&& (exists|i: int| 0 <= i < b.sent@.len() && b.sent@[i].serial == serial) ==> exists|i: int|
        0 <= i < b.sent@.len() && b.sent@[i].serial == serial
        && a.acked == Some(b.sent@[i].state)
        && a.sent@ == b.sent@.subrange(i + 1, b.sent@.len() as int)
    &&& !(exists|i: int| 0 <= i < b.sent@.len() && b.sent@[i].serial == serial) ==> {
        &&& a.acked == b.acked
        &&& a.sent@ == b.sent@
    }
    &&& a.current == b.current
    &&& a.pending == b.pending
    &&& a.geometry == b.geometry
}

/// `a` is `b` after the client committed with geometry size `geometry`:
/// the acknowledged state, if any, is current; the size is the new one.
pub open spec fn committed(a: AvWindow, b: AvWindow, geometry: Size) -> bool {
    &&& a.current == (match b.acked {
        Some(s) => s,
        None => b.current,
    })
    &&& a.acked is None
    &&& a.geometry == geometry
    &&& a.sent@ == b.sent@
    &&& a.pending == b.pending
}

/// The two windows agree in everything but the time of the last frame
/// callback.
pub open spec fn same_but_frame(a: AvWindow, b: AvWindow) -> bool {
    &&& a.id == b.id
    &&& a.client == b.client
    &&& a.kind == b.kind
    &&& a.alive == b.alive
    &&& a.geometry == b.geometry
    &&& a.min_size == b.min_size
    &&& a.max_size == b.max_size
    &&& a.pending == b.pending
    &&& a.current == b.current
    &&& a.acked == b.acked
    &&& a.sent@ == b.sent@
}

/// The state of a fresh toplevel: no flag, no size.
pub open spec fn initial_state() -> ToplevelState {
    ToplevelState {
        activated: false,
        maximized: false,
        fullscreen: false,
        resizing: false,
        size: None,
        fullscreen_output: None,
    }
}

impl ToplevelState {
    /// The state of a fresh toplevel: no flag, no size.
    pub fn initial() -> (r: ToplevelState)
        ensures
            r == initial_state(),
    {
        ToplevelState {
            activated: false,
            maximized: false,
            fullscreen: false,
            resizing: false,
            size: None,
            fullscreen_output: None,
        }
    }
}

impl AvWindow {
    /// A live, freshly created toplevel of `client` with no configure sent.
    pub fn new(id: u64, client: u64, kind: WindowKind, geometry: Size) -> (r: AvWindow)
        ensures
            r.id == id,
            r.client == client,
            r.kind == kind,
            r.alive,
            r.geometry == geometry,
            r.min_size == (Size { w: 0, h: 0 }),
            r.max_size == (Size { w: 0, h: 0 }),
            r.pending == initial_state(),
            r.current == initial_state(),
            r.acked is None,
            r.sent@.len() == 0,
            r.last_frame_ms is None,
    {
        AvWindow {
            id,
            client,
            kind,
            alive: true,
            geometry,
            min_size: Size { w: 0, h: 0 },
            max_size: Size { w: 0, h: 0 },
            pending: ToplevelState::initial(),
            current: ToplevelState::initial(),
            acked: None,
            sent: Vec::new(),
            last_frame_ms: None,
        }
    }

    pub fn is_alive(&self) -> (r: bool)
        ensures
            r == self.alive,
    {
        self.alive
    }

    /// The window geometry relative to its location: origin and size.
    pub fn geometry(&self) -> (r: Rectangle)
        ensures
            r == (Rectangle { loc: Point { x: 0, y: 0 }, size: self.geometry }),
    {
        Rectangle { loc: Point { x: 0, y: 0 }, size: self.geometry }
    }

    /// The rectangle the window covers relative to its location.
    pub fn bbox(&self) -> (r: Rectangle)
        ensures
            r == (Rectangle { loc: Point { x: 0, y: 0 }, size: self.geometry }),
    {
        Rectangle { loc: Point { x: 0, y: 0 }, size: self.geometry }
    }

    /// The surface under `point` (relative to the window's location), with
    /// the surface's own location: the window's surface when the point lies
    /// in its geometry.
    pub fn surface_under(&self, point: Point) -> (r: Option<(u64, Point)>)
        ensures
            r == (if (Rectangle { loc: Point { x: 0, y: 0 }, size: self.geometry }).contains_spec(point) {
                Some((self.id, Point { x: 0, y: 0 }))
            } else {
                None::<(u64, Point)>
            }),
    {
        if self.bbox().contains(point) {
            Some((self.id, Point { x: 0, y: 0 }))
        } else {
            None
        }
    }

    /// Marks the window active or not in its pending state; tells whether
    /// that changed anything.
    pub fn set_activate(&mut self, active: bool) -> (r: bool)
        ensures
            r == (old(self).pending.activated != active),
            final(self).pending == (ToplevelState { activated: active, ..old(self).pending }),
            final(self).sent@ == old(self).sent@,
            final(self).id == old(self).id,
            final(self).client == old(self).client,
            final(self).kind == old(self).kind,
            final(self).alive == old(self).alive,
            final(self).geometry == old(self).geometry,
            final(self).current == old(self).current,
            final(self).acked == old(self).acked,
    {
        let changed = self.pending.activated != active;
        self.pending.activated = active;
        changed
    }

    /// The surface of the window; every window here has one.
    pub fn wl_surface(&self) -> (r: Option<u64>)
        ensures
            r == Some(self.id),
    {
        Some(self.id)
    }

    pub fn is_wayland(&self) -> (r: bool)
        ensures
            r == (self.kind == WindowKind::Wayland),
    {
        match self.kind {
            WindowKind::Wayland => true,
            WindowKind::X11 => false,
        }
    }

    /// Whether the window belongs to `client`.
    pub fn same_client_as(&self, client: u64) -> (r: bool)
        ensures
            r == (self.client == client),
    {
        self.client == client
    }

    /// Sends the window a frame callback at `now_ms` unless it got one
    /// less than `throttle_ms` ago; tells whether it was sent.
    pub fn send_frame(&mut self, now_ms: u64, throttle_ms: u64) -> (r: bool)
        ensures
            r == frame_due_spec(now_ms, old(self).last_frame_ms, throttle_ms),
            final(self).last_frame_ms == (if r { Some(now_ms) } else { old(self).last_frame_ms }),
            same_but_frame(*final(self), *old(self)),
    {
        let due = match self.last_frame_ms {
            None => true,
            Some(l) => l <= now_ms && now_ms - l >= throttle_ms,
        };
        if due {
            self.last_frame_ms = Some(now_ms);
        }
        due
    }

    /// Sends the pending state to the client as a configure with `serial`.
    pub fn send_configure(&mut self, serial: u32)
        ensures
            final(self).sent@ == old(self).sent@.push(Configure { serial, state: old(self).pending }),
            final(self).id == old(self).id,
            final(self).client == old(self).client,
            final(self).kind == old(self).kind,
            final(self).alive == old(self).alive,
            final(self).geometry == old(self).geometry,
            final(self).min_size == old(self).min_size,
            final(self).max_size == old(self).max_size,
            final(self).pending == old(self).pending,
            final(self).current == old(self).current,
            final(self).acked == old(self).acked,
    {
        let c = Configure { serial, state: self.pending };
        self.sent.push(c);
    }

    /// The client acknowledged the configure with `serial`: its state
    /// becomes the acknowledged one, and it and every earlier configure
    /// are dropped. An unknown serial is ignored; the result tells whether
    /// it was known.
    pub fn ack_configure(&mut self, serial: u32) -> (r: bool)
        ensures
            acked_configure(*final(self), *old(self), serial),
            r == (exists|i: int| 0 <= i < old(self).sent@.len() && old(self).sent@[i].serial == serial),
            r ==> (exists|i: int|
                0 <= i < old(self).sent@.len() && old(self).sent@[i].serial == serial
                && final(self).acked == Some(old(self).sent@[i].state)
                && final(self).sent@ == old(self).sent@.subrange(i + 1, old(self).sent@.len() as int)),
            !r ==> final(self).acked == old(self).acked && final(self).sent@ == old(self).sent@,
            final(self).id == old(self).id,
            final(self).client == old(self).client,
            final(self).kind == old(self).kind,
            final(self).alive == old(self).alive,
            final(self).geometry == old(self).geometry,
            final(self).min_size == old(self).min_size,
            final(self).max_size == old(self).max_size,
            final(self).pending == old(self).pending,
            final(self).current == old(self).current,
    {
        let n = self.sent.len();
        let mut i: usize = 0;
        while i < n
            invariant
                n == self.sent@.len(),
                0 <= i <= n,
                *self == *old(self),
                forall|j: int| 0 <= j < i ==> self.sent@[j].serial != serial,
            decreases n - i,
        {
            if self.sent[i].serial == serial {
                let state = self.sent[i].state;
                let mut rest: Vec<Configure> = Vec::new();
                let mut k: usize = i + 1;
                while k < n
                    invariant
                        n == self.sent@.len(),
                        *self == *old(self),
                        i < n,
                        i + 1 <= k <= n,
                        rest@ == self.sent@.subrange(i + 1, k as int),
                    decreases n - k,
                {
                    rest.push(self.sent[k]);
                    k = k + 1;
                }
                proof {
                    assert(rest@ =~= self.sent@.subrange(i + 1, n as int));
                }
                self.acked = Some(state);
                self.sent = rest;
                return true;
            }
            i = i + 1;
        }
        false
    }

    /// The client committed: an acknowledged state becomes current, and
    /// the window takes the geometry size the client drew.
    pub fn commit(&mut self, geometry: Size)
        ensures
            committed(*final(self), *old(self), geometry),
            final(self).current == (match old(self).acked {
                Some(s) => s,
                None => old(self).current,
            }),
            final(self).acked is None,
            final(self).geometry == geometry,
            final(self).sent@ == old(self).sent@,
            final(self).id == old(self).id,
            final(self).client == old(self).client,
            final(self).kind == old(self).kind,
            final(self).alive == old(self).alive,
            final(self).min_size == old(self).min_size,
            final(self).max_size == old(self).max_size,
            final(self).pending == old(self).pending,
    {
        if let Some(s) = self.acked {
            self.current = s;
        }
        self.acked = None;
        self.geometry = geometry;
    }
}

} // verus!
