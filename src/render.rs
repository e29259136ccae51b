use vstd::prelude::*;
use crate::geometry::{Point, Rectangle, sat_i32, saturate_i32};
use crate::shell::{Navda, LayerSurface};
use crate::space::OutputEntry;
use crate::space::{Placed, placed_rect, lemma_update_placed};
use crate::window::{frame_due_spec, same_but_frame};

verus! {

/// Elements drawn over the windows: the pointer cursor, the icon of a
/// drag-and-drop, and the popup of an input method.
#[derive(Clone, Copy, Debug, PartialEq, Eq, Structural)]
pub enum CustomElement {
    Cursor,
    DragIcon,
    InputMethodPopup,
}

/// One thing to draw in a frame; windows are placed relative to the
/// output's origin.
#[derive(Clone, Copy, Debug, PartialEq, Eq, Structural)]
pub enum RenderItem {
    Custom(CustomElement),
    Window { surface: u64, loc: Point },
}

/// What to draw on an output in one frame, front to back, and the buffer
/// age to hand the damage tracker.
#[derive(Debug)]
pub struct FramePlan {
    pub age: usize,
    /// Whether the output presents a fullscreen window alone.
    pub fullscreen: bool,
    pub items: Vec<RenderItem>,
}

/// Presentation feedback for a frame shown at vsync.
#[derive(Clone, Copy, Debug, PartialEq, Eq, Structural)]
pub struct PresentationFeedback {
    /// The output's refresh interval, in nanoseconds.
    pub refresh_ns: u64,
    pub vsync: bool,
}

/// A failure while rendering or submitting a frame.
#[derive(Clone, Copy, Debug, PartialEq, Eq, Structural)]
pub enum RenderError {
    /// The graphics context was lost: nothing more can be drawn.
    ContextLost,
    /// Any other failure: this frame is lost, the next may succeed.
    Recoverable,
}

/// What the loop does after a render error.
#[derive(Clone, Copy, Debug, PartialEq, Eq, Structural)]
pub enum ErrorAction {
    /// Skip this frame and go on.
    SkipFrame,
    /// Stop the compositor.
    Shutdown,
}

/// The interval under which a surface is not sent another frame callback.
pub const FRAME_THROTTLE_MS: u64 = 1000;

/// The age of the buffer to redraw: 0 (redraw everything) after a reset
/// was asked for, the backend's age otherwise.
pub fn buffer_age(full_redraw: bool, backend_age: usize) -> (r: usize)
    ensures
        r == (if full_redraw { 0 } else { backend_age }),
{
    if full_redraw { 0 } else { backend_age }
}

/// Whether a surface is due a frame callback at `now_ms`: it never got
/// one, or the last one is at least `throttle_ms` old.
pub fn frame_due(now_ms: u64, last_ms: Option<u64>, throttle_ms: u64) -> (r: bool)
    ensures
        r == frame_due_spec(now_ms, last_ms, throttle_ms),
{
    match last_ms {
        None => true,
        Some(l) => l <= now_ms && now_ms - l >= throttle_ms,
    }
}

/// Feedback for a submitted frame: given when the frame damaged
/// anything, with the output's refresh interval; none otherwise.
pub fn presentation_feedback(damaged: bool, refresh_ns: u64) -> (r: Option<PresentationFeedback>)
    ensures
        r == (if damaged { Some(PresentationFeedback { refresh_ns, vsync: true }) } else { None }),
{
    if damaged {
        Some(PresentationFeedback { refresh_ns, vsync: true })
    } else {
        None
    }
}

/// Whether a placed window gets a frame callback after a frame at
/// `now_ms` on the output with geometry `g`.
pub open spec fn frame_target(p: Placed, g: Rectangle, now_ms: u64) -> bool {
    placed_rect(p).overlaps_spec(g) && frame_due_spec(now_ms, p.window.last_frame_ms, FRAME_THROTTLE_MS)
}

/// `a` is `b` after the frame callbacks of a frame at `now_ms` on the
/// output with geometry `g`.
pub open spec fn framed(a: Placed, b: Placed, g: Rectangle, now_ms: u64) -> bool {
    &&& a.loc == b.loc
    &&& same_but_frame(a.window, b.window)
    &&& a.window.last_frame_ms == (if frame_target(b, g, now_ms) { Some(now_ms) } else { b.window.last_frame_ms })
}

/// Whether a layer surface gets a frame callback after a frame at
/// `now_ms` on `output`.
pub open spec fn layer_target(l: LayerSurface, output: u64, now_ms: u64) -> bool {
    l.output == output && frame_due_spec(now_ms, l.last_frame_ms, FRAME_THROTTLE_MS)
}

/// A layer surface after the frame callbacks of a frame at `now_ms` on
/// `output`.
pub open spec fn layer_framed(l: LayerSurface, output: u64, now_ms: u64) -> LayerSurface {
    if layer_target(l, output, now_ms) {
        LayerSurface { last_frame_ms: Some(now_ms), ..l }
    } else {
        l
    }
}

/// A placed window as drawn on an output with origin `origin`.
pub open spec fn window_item(p: Placed, origin: Point) -> RenderItem {
    RenderItem::Window {
        surface: p.window.id,
        loc: Point { x: sat_i32(p.loc.x - origin.x) as i32, y: sat_i32(p.loc.y - origin.y) as i32 },
    }
}

/// The windows an output with geometry `g` shows, bottom to top.
pub open spec fn windows_on(s: Seq<Placed>, g: Rectangle) -> Seq<RenderItem> {
    s.filter(|p: Placed| placed_rect(p).overlaps_spec(g)).map_values(|p: Placed| window_item(p, g.loc))
}

fn custom_items(custom: &Vec<CustomElement>) -> (r: Vec<RenderItem>)
    ensures
        r@ == custom@.map_values(|c: CustomElement| RenderItem::Custom(c)),
{
    let mut r: Vec<RenderItem> = Vec::new();
    let n = custom.len();
    let mut i: usize = 0;
    while i < n
        invariant
            n == custom@.len(),
            i <= n,
            r@ == custom@.subrange(0, i as int).map_values(|c: CustomElement| RenderItem::Custom(c)),
        decreases n - i,
    {
        r.push(RenderItem::Custom(custom[i]));
        proof {
            assert(custom@.subrange(0, i + 1).map_values(|c: CustomElement| RenderItem::Custom(c))
                =~= custom@.subrange(0, i as int).map_values(|c: CustomElement| RenderItem::Custom(c)).push(RenderItem::Custom(custom@[i as int])));
        }
        i = i + 1;
    }
    proof {
        assert(custom@.subrange(0, n as int) =~= custom@);
    }
    r
}

impl Navda {
    /// The surfaces a frame on the output with geometry `g` shows: the
    /// mapped windows that overlap it, bottom to top.
    pub fn windows_on_output(&self, g: Rectangle) -> (r: Vec<RenderItem>)
        ensures
            r@ == windows_on(self.space.elements@, g),
    {
        let mut r: Vec<RenderItem> = Vec::new();
        let n = self.space.elements.len();
        let mut i: usize = 0;
        while i < n
            invariant
                n == self.space.elements@.len(),
                i <= n,
                r@ == windows_on(self.space.elements@.subrange(0, i as int), g),
            decreases n - i,
        {
            let p = &self.space.elements[i];
            let rect = Rectangle { loc: p.loc, size: p.window.geometry };
            proof {
                let s = self.space.elements@;
                assert(s.subrange(0, i + 1) =~= s.subrange(0, i as int).push(s[i as int]));
                s.subrange(0, i as int).lemma_filter_push(s[i as int], |p: Placed| placed_rect(p).overlaps_spec(g));
            }
            if rect.overlaps(&g) {
                let x = saturate_i32(p.loc.x as i64 - g.loc.x as i64);
                let y = saturate_i32(p.loc.y as i64 - g.loc.y as i64);
                r.push(RenderItem::Window { surface: p.window.id, loc: Point { x, y } });
                proof {
                    let f = self.space.elements@.subrange(0, i as int).filter(|p: Placed| placed_rect(p).overlaps_spec(g));
                    let q = self.space.elements@[i as int];
                    assert(f.push(q).map_values(|p: Placed| window_item(p, g.loc))
                        =~= f.map_values(|p: Placed| window_item(p, g.loc)).push(window_item(q, g.loc)));
                }
            }
            i = i + 1;
        }
        proof {
            assert(self.space.elements@.subrange(0, n as int) =~= self.space.elements@);
        }
        r
    }

    /// Plans a frame on `output`.
    ///
    /// The buffer age is 0 when a full redraw was asked for. When the
    /// output has a fullscreen window that is still mapped, the frame
    /// shows the custom elements and that window alone, at the output's
    /// origin, bypassing the composition of the space. Otherwise it shows
    /// the custom elements over every window that overlaps the output. An
    /// output that is not registered shows the custom elements alone.
    pub fn plan_frame(&self, output: u64, custom: &Vec<CustomElement>, full_redraw: bool, backend_age: usize) -> (r: FramePlan)
        requires
            self.wf(),
        ensures
            r.age == (if full_redraw { 0 } else { backend_age }),
            match self.fullscreen.state(output) {
                Some(w) => self.space.mapped(w),
                None => false,
            } ==> {
                &&& r.fullscreen
                &&& r.items@ == custom@.map_values(|c: CustomElement| RenderItem::Custom(c))
                    .push(RenderItem::Window { surface: self.fullscreen.state(output)->0, loc: Point { x: 0, y: 0 } })
            },
            !match self.fullscreen.state(output) {
                Some(w) => self.space.mapped(w),
                None => false,
            } ==> {
                &&& !r.fullscreen
                &&& r.items@ == custom@.map_values(|c: CustomElement| RenderItem::Custom(c)) + match self.output_rect(output) {
                    Some(g) => windows_on(self.space.elements@, g),
                    None => Seq::empty(),
                }
            },
    {
        let age = buffer_age(full_redraw, backend_age);
        let mut items = custom_items(custom);
        if let Some(w) = self.fullscreen_surface(output) {
            if self.space.find(w).is_some() {
                items.push(RenderItem::Window { surface: w, loc: Point { x: 0, y: 0 } });
                return FramePlan { age, fullscreen: true, items };
            }
        }
        match self.space.output_geometry(output) {
            Some(g) => {
                let mut ws = self.windows_on_output(g);
                let ghost a = items@;
                let ghost b = ws@;
                items.append(&mut ws);
                proof {
                    assert(items@ == a + b);
                }
            },
            None => {
                proof {
                    assert(items@ =~= items@ + Seq::<RenderItem>::empty());
                }
            },
        }
        FramePlan { age, fullscreen: false, items }
    }

    /// After a frame on `output` was submitted at `now_ms`, frame callbacks
    /// go to every window that overlaps the output and every layer surface
    /// on the output, each only when it is due (see `frame_due`, with
    /// `FRAME_THROTTLE_MS`). Returns the surfaces that got one: the windows
    /// bottom to top, then the layer surfaces in registration order. An
    /// output that is not registered in the space shows no window.
    pub fn post_repaint(&mut self, output: u64, now_ms: u64) -> (r: Vec<u64>)
        requires
            old(self).wf(),
        ensures
            final(self).wf(),
            final(self).space.outputs@ == old(self).space.outputs@,
            final(self).grab == old(self).grab,
            final(self).resize_states == old(self).resize_states,
            final(self).fullscreen == old(self).fullscreen,
            final(self).space.elements@.len() == old(self).space.elements@.len(),
            final(self).layers@ == old(self).layers@.map_values(|l: LayerSurface| layer_framed(l, output, now_ms)),
            r@ == match old(self).output_rect(output) {
                None => Seq::empty(),
                Some(g) => old(self).space.elements@.filter(|p: Placed| frame_target(p, g, now_ms))
                    .map_values(|p: Placed| p.window.id),
            } + old(self).layers@.filter(|l: LayerSurface| layer_target(l, output, now_ms))
                .map_values(|l: LayerSurface| l.surface),
            match old(self).output_rect(output) {
                None => final(self).space.elements@ == old(self).space.elements@,
                Some(g) => forall|j: int| 0 <= j < old(self).space.elements@.len() ==>
                    framed(#[trigger] final(self).space.elements@[j], old(self).space.elements@[j], g, now_ms),
            },
    {
        let mut r: Vec<u64> = match self.space.output_geometry(output) {
            Some(g) => {
                proof {
                    let outs = self.space.outputs@;
                    let k = choose|k: int| 0 <= k < outs.len() && outs[k] == (OutputEntry { id: output, geometry: g })
                        && forall|j: int| 0 <= j < k ==> #[trigger] outs[j].id != output;
                    assert(exists|m: int| 0 <= m < outs.len() && outs[m].id == output
                        && forall|j: int| 0 <= j < m ==> (#[trigger] outs[j]).id != output);
                    let m = choose|m: int| 0 <= m < outs.len() && outs[m].id == output
                        && forall|j: int| 0 <= j < m ==> (#[trigger] outs[j]).id != output;
                    if m < k { assert(outs[m].id != output); }
                    if m > k { assert(outs[k].id != output); }
                    assert(self.output_rect(output) == Some(g));
                }
                self.frame_windows(g, now_ms)
            },
            None => Vec::new(),
        };
        let ghost a = r@;
        let mut l = self.frame_layers(output, now_ms);
        let ghost b = l@;
        r.append(&mut l);
        proof {
            assert(r@ == a + b);
        }
        r
    }

    /// Sends the due frame callbacks of the layer surfaces on `output`.
    fn frame_layers(&mut self, output: u64, now_ms: u64) -> (r: Vec<u64>)
        requires
            old(self).wf(),
        ensures
            final(self).wf(),
            final(self).space == old(self).space,
            final(self).grab == old(self).grab,
            final(self).resize_states == old(self).resize_states,
            final(self).fullscreen == old(self).fullscreen,
            final(self).layers@ == old(self).layers@.map_values(|l: LayerSurface| layer_framed(l, output, now_ms)),
            r@ == old(self).layers@.filter(|l: LayerSurface| layer_target(l, output, now_ms))
                .map_values(|l: LayerSurface| l.surface),
    {
        let ghost s = self.layers@;
        let mut r: Vec<u64> = Vec::new();
        let n = self.layers.len();
        let mut i: usize = 0;
        while i < n
            invariant
                self.wf(),
                n == s.len(),
                i <= n,
                self.layers@.len() == n,
                self.space == old(self).space,
                self.grab == old(self).grab,
                self.resize_states == old(self).resize_states,
                self.fullscreen == old(self).fullscreen,
                forall|j: int| 0 <= j < i ==> #[trigger] self.layers@[j] == layer_framed(s[j], output, now_ms),
                forall|j: int| i <= j < n ==> #[trigger] self.layers@[j] == s[j],
                r@ == s.subrange(0, i as int).filter(|l: LayerSurface| layer_target(l, output, now_ms))
                    .map_values(|l: LayerSurface| l.surface),
            decreases n - i,
        {
            let l = self.layers[i];
            proof {
                assert(s.subrange(0, i + 1) =~= s.subrange(0, i as int).push(l));
                s.subrange(0, i as int).lemma_filter_push(l, |l: LayerSurface| layer_target(l, output, now_ms));
            }
            if l.output == output && frame_due(now_ms, l.last_frame_ms, FRAME_THROTTLE_MS) {
                self.layers.set(i, LayerSurface { last_frame_ms: Some(now_ms), ..l });
                r.push(l.surface);
                proof {
                    let f = s.subrange(0, i as int).filter(|l: LayerSurface| layer_target(l, output, now_ms));
                    assert(f.push(l).map_values(|l: LayerSurface| l.surface)
                        =~= f.map_values(|l: LayerSurface| l.surface).push(l.surface));
                }
            }
            i = i + 1;
        }
        proof {
            assert(s.subrange(0, n as int) =~= s);
            assert(self.layers@ =~= s.map_values(|l: LayerSurface| layer_framed(l, output, now_ms)));
        }
        r
    }

    /// Sends the due frame callbacks of the windows that overlap the
    /// output with geometry `g`.
    fn frame_windows(&mut self, g: Rectangle, now_ms: u64) -> (r: Vec<u64>)
        requires
            old(self).wf(),
        ensures
            final(self).wf(),
            final(self).space.outputs@ == old(self).space.outputs@,
            final(self).grab == old(self).grab,
            final(self).resize_states == old(self).resize_states,
            final(self).fullscreen == old(self).fullscreen,
            final(self).space.elements@.len() == old(self).space.elements@.len(),
            final(self).layers@ == old(self).layers@,
            final(self).keyboard_focus == old(self).keyboard_focus,
            r@ == old(self).space.elements@.filter(|p: Placed| frame_target(p, g, now_ms))
                .map_values(|p: Placed| p.window.id),
            forall|j: int| 0 <= j < old(self).space.elements@.len() ==>
                framed(#[trigger] final(self).space.elements@[j], old(self).space.elements@[j], g, now_ms),
    {
        let mut r: Vec<u64> = Vec::new();
        let ghost s = self.space.elements@;
        let n = self.space.elements.len();
        let mut i: usize = 0;
        while i < n
            invariant
                self.wf(),
                n == s.len(),
                i <= n,
                self.space.elements@.len() == n,
                self.space.outputs@ == old(self).space.outputs@,
                self.grab == old(self).grab,
                self.resize_states == old(self).resize_states,
                self.fullscreen == old(self).fullscreen,
                self.layers@ == old(self).layers@,
                self.keyboard_focus == old(self).keyboard_focus,
                forall|j: int| 0 <= j < i ==> framed(#[trigger] self.space.elements@[j], s[j], g, now_ms),
                forall|j: int| i <= j < n ==> #[trigger] self.space.elements@[j] == s[j],
                r@ == s.subrange(0, i as int).filter(|p: Placed| frame_target(p, g, now_ms)).map_values(|p: Placed| p.window.id),
            decreases n - i,
        {
            let ghost cur = self.space.elements@;
            proof {
                assert(s.subrange(0, i + 1) =~= s.subrange(0, i as int).push(s[i as int]));
                s.subrange(0, i as int).lemma_filter_push(s[i as int], |p: Placed| frame_target(p, g, now_ms));
            }
            let rect = Rectangle { loc: self.space.elements[i].loc, size: self.space.elements[i].window.geometry };
            if rect.overlaps(&g) {
                let mut p = self.space.take_at(i);
                let due = p.window.send_frame(now_ms, FRAME_THROTTLE_MS);
                let id = p.window.id;
                let ghost pp = p;
                self.space.put_at(i, p);
                proof {
                    lemma_update_placed(cur, i as int, pp);
                    assert(self.space.elements@ == cur.update(i as int, pp));
                }
                if due {
                    r.push(id);
                    proof {
                        let f = s.subrange(0, i as int).filter(|p: Placed| frame_target(p, g, now_ms));
                        assert(f.push(s[i as int]).map_values(|p: Placed| p.window.id)
                            =~= f.map_values(|p: Placed| p.window.id).push(id));
                    }
                }
            }
            proof {
                assert(framed(self.space.elements@[i as int], s[i as int], g, now_ms));
                assert forall|j: int| 0 <= j < i + 1 implies framed(#[trigger] self.space.elements@[j], s[j], g, now_ms) by {
                    if j < i {
                        assert(self.space.elements@[j] == cur[j]);
                    }
                }
                assert forall|j: int| i + 1 <= j < n implies #[trigger] self.space.elements@[j] == s[j] by {
                    assert(self.space.elements@[j] == cur[j]);
                }
            }
            i = i + 1;
        }
        proof {
            assert(s.subrange(0, n as int) =~= s);
        }
        r
    }

    /// Handles a render error: a lost graphics context is fatal and clears
    /// the running flag; any other error only skips the frame. Nothing else
    /// changes.
    pub fn handle_render_error(&mut self, e: RenderError) -> (r: ErrorAction)
        ensures
            r == (match e {
                RenderError::ContextLost => ErrorAction::Shutdown,
                RenderError::Recoverable => ErrorAction::SkipFrame,
            }),
            final(self).running == (match e {
                RenderError::ContextLost => false,
                RenderError::Recoverable => old(self).running,
            }),
            final(self).space == old(self).space,
            final(self).grab == old(self).grab,
            final(self).resize_states == old(self).resize_states,
            final(self).fullscreen == old(self).fullscreen,
            final(self).layers == old(self).layers,
    {
        match e {
            RenderError::ContextLost => {
                self.stop();
                ErrorAction::Shutdown
            },
            RenderError::Recoverable => ErrorAction::SkipFrame,
        }
    }

    /// The geometry of a registered output (its first entry).
    pub open spec fn output_rect(&self, output: u64) -> Option<Rectangle> {
        let outs = self.space.outputs@;
        if exists|k: int| 0 <= k < outs.len() && outs[k].id == output {
            let k = choose|k: int| 0 <= k < outs.len() && outs[k].id == output
                && forall|j: int| 0 <= j < k ==> (#[trigger] outs[j]).id != output;
            Some(outs[k].geometry)
        } else {
            None
        }
    }
}

} // verus!
