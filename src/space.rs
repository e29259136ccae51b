use vstd::prelude::*;
use crate::geometry::{Point, Rectangle};
use crate::window::AvWindow;

verus! {

/// A window at a location in the space.
#[derive(Debug)]
pub struct Placed {
    pub window: AvWindow,
    pub loc: Point,
}

/// An output registered in the space, with its logical geometry.
#[derive(Clone, Copy, Debug, PartialEq, Eq, Structural)]
pub struct OutputEntry {
    pub id: u64,
    pub geometry: Rectangle,
}

/// The 2D plane: windows with their locations in z-order (the last one is
/// drawn last, on top), and the outputs that show parts of it.
#[derive(Debug)]
pub struct Space {
    pub elements: Vec<Placed>,
    pub outputs: Vec<OutputEntry>,
}

/// No window appears twice.
pub open spec fn ids_unique(s: Seq<Placed>) -> bool {
    forall|i: int, j: int| 0 <= i < s.len() && 0 <= j < s.len() && i != j
        ==> s[i].window.id != s[j].window.id
}

/// Whether the window with surface `id` is in the sequence.
pub open spec fn has_window(s: Seq<Placed>, id: u64) -> bool {
    exists|i: int| 0 <= i < s.len() && s[i].window.id == id
}

/// The position of the window with surface `id` in the sequence.
pub open spec fn index_of(s: Seq<Placed>, id: u64) -> int {
    choose|i: int| 0 <= i < s.len() && s[i].window.id == id
}

/// The location of the window with surface `id`, if it is mapped.
pub open spec fn location_in(s: Seq<Placed>, id: u64) -> Option<Point> {
    if has_window(s, id) {
        Some(s[index_of(s, id)].loc)
    } else {
        None
    }
}

/// The rectangle a placed window covers.
pub open spec fn placed_rect(p: Placed) -> Rectangle {
    Rectangle { loc: p.loc, size: p.window.geometry }
}

/// The position of the topmost window whose rectangle holds `p`.
pub open spec fn topmost_index(s: Seq<Placed>, p: Point) -> Option<int>
    decreases s.len(),
{
    if s.len() == 0 {
        None
    } else if placed_rect(s.last()).contains_spec(p) {
        Some(s.len() - 1)
    } else {
        topmost_index(s.drop_last(), p)
    }
}

/// The windows that are alive, in the same order.
pub open spec fn live(s: Seq<Placed>) -> Seq<Placed>
    decreases s.len(),
{
    if s.len() == 0 {
        Seq::empty()
    } else if s.last().window.alive {
        live(s.drop_last()).push(s.last())
    } else {
        live(s.drop_last())
    }
}

spec fn occurs_in(s: Seq<Placed>, p: Placed) -> bool {
    exists|i: int| 0 <= i < s.len() && p == #[trigger] s[i]
}

proof fn lemma_live_unique(s: Seq<Placed>)
    requires
        ids_unique(s),
    ensures
        ids_unique(live(s)),
        forall|k: int| 0 <= k < live(s).len() ==> occurs_in(s, #[trigger] live(s)[k]),
    decreases s.len(),
{
    if s.len() > 0 {
        let t = s.drop_last();
        assert(ids_unique(t));
        lemma_live_unique(t);
        let l = live(s);
        assert forall|k: int| 0 <= k < l.len() implies occurs_in(s, #[trigger] l[k]) by {
            if k < live(t).len() {
                assert(occurs_in(t, live(t)[k]));
                let i = choose|i: int| 0 <= i < t.len() && live(t)[k] == #[trigger] t[i];
                assert(l[k] == live(t)[k]);
                assert(s[i] == t[i]);
            } else {
                assert(l[k] == s[s.len() - 1]);
            }
        }
        assert forall|a: int, b: int| 0 <= a < l.len() && 0 <= b < l.len() && a != b implies l[a].window.id != l[b].window.id by {
            if s.last().window.alive && (a == l.len() - 1 || b == l.len() - 1) {
                let o = if a == l.len() - 1 { b } else { a };
                assert(l[o] == live(t)[o]);
                assert(occurs_in(t, live(t)[o]));
                let i = choose|i: int| 0 <= i < t.len() && live(t)[o] == #[trigger] t[i];
                assert(s[i] == t[i]);
                assert(s[s.len() - 1].window.id != s[i].window.id);
            } else if s.last().window.alive {
                assert(l[a] == live(t)[a]);
                assert(l[b] == live(t)[b]);
            } else {
                assert(l == live(t));
            }
        }
    }
}

/// Replacing the window at position `i` by one with the same surface
/// keeps the surfaces unique; its location becomes `p.loc` and every other
/// location stays.
pub proof fn lemma_update_placed(s: Seq<Placed>, i: int, p: Placed)
    requires
        ids_unique(s),
        0 <= i < s.len(),
        p.window.id == s[i].window.id,
    ensures
        ids_unique(s.update(i, p)),
        s.remove(i).insert(i, p) == s.update(i, p),
        has_window(s.update(i, p), p.window.id),
        index_of(s.update(i, p), p.window.id) == i,
        index_of(s, p.window.id) == i,
        location_in(s.update(i, p), p.window.id) == Some(p.loc),
        forall|o: u64| o != p.window.id ==> #[trigger] location_in(s.update(i, p), o) == location_in(s, o),
        forall|o: u64| #[trigger] has_window(s.update(i, p), o) == has_window(s, o),
        forall|o: u64| o != p.window.id && has_window(s, o) ==>
            #[trigger] s.update(i, p)[index_of(s.update(i, p), o)] == s[index_of(s, o)],
{
    let t = s.update(i, p);
    assert(s.remove(i).insert(i, p) =~= t);
    assert(t[i] == p);
    assert(has_window(t, p.window.id));
    assert(has_window(s, p.window.id));
    assert forall|o: u64| #[trigger] has_window(t, o) == has_window(s, o) by {
        if has_window(s, o) {
            let j = index_of(s, o);
            if j == i { assert(t[i].window.id == o); } else { assert(t[j] == s[j]); }
        }
        if has_window(t, o) {
            let j = index_of(t, o);
            if j == i { assert(s[i].window.id == o); } else { assert(t[j] == s[j]); }
        }
    }
    assert forall|o: u64| o != p.window.id implies #[trigger] location_in(t, o) == location_in(s, o) by {
        if has_window(s, o) {
            let j = index_of(s, o);
            assert(j != i);
            assert(t[j] == s[j]);
            assert(index_of(t, o) == j);
        }
    }
    assert forall|o: u64| o != p.window.id && has_window(s, o) implies
        #[trigger] t[index_of(t, o)] == s[index_of(s, o)] by {
        let j = index_of(s, o);
        assert(t[j] == s[j]);
        assert(index_of(t, o) == j);
    }
}

/// The two windows agree in everything but the activation flag of the
/// pending state.
pub open spec fn same_but_activation(a: AvWindow, b: AvWindow) -> bool {
    &&& a.id == b.id
    &&& a.client == b.client
    &&& a.kind == b.kind
    &&& a.alive == b.alive
    &&& a.geometry == b.geometry
    &&& a.min_size == b.min_size
    &&& a.max_size == b.max_size
    &&& a.current == b.current
    &&& a.acked == b.acked
    &&& a.sent == b.sent
    &&& a.pending.maximized == b.pending.maximized
    &&& a.pending.fullscreen == b.pending.fullscreen
    &&& a.pending.resizing == b.pending.resizing
    &&& a.pending.size == b.pending.size
    &&& a.pending.fullscreen_output == b.pending.fullscreen_output
}

impl Space {
    pub open spec fn wf(&self) -> bool {
        ids_unique(self.elements@)
    }

    /// Whether the window with surface `id` is mapped.
    pub open spec fn mapped(&self, id: u64) -> bool {
        has_window(self.elements@, id)
    }

    /// The mapped window with surface `id`.
    pub open spec fn window(&self, id: u64) -> AvWindow {
        self.elements@[index_of(self.elements@, id)].window
    }

    /// Takes the window at position `i` out, to be put back with `put_at`.
    pub fn take_at(&mut self, i: usize) -> (p: Placed)
        requires
            old(self).wf(),
            i < old(self).elements@.len(),
        ensures
            final(self).wf(),
            p == old(self).elements@[i as int],
            final(self).elements@ == old(self).elements@.remove(i as int),
            final(self).outputs@ == old(self).outputs@,
            !has_window(final(self).elements@, p.window.id),
    {
        let p = self.elements.remove(i);
        proof {
            let s = old(self).elements@;
            let id = p.window.id;
            assert forall|j: int| 0 <= j < self.elements@.len() implies self.elements@[j].window.id != id by {
                if j < i { assert(self.elements@[j] == s[j]); } else { assert(self.elements@[j] == s[j + 1]); }
            }
            assert forall|a: int, b: int| 0 <= a < self.elements@.len() && 0 <= b < self.elements@.len() && a != b
                implies self.elements@[a].window.id != self.elements@[b].window.id by {
                let a2 = if a < i { a } else { a + 1 };
                let b2 = if b < i { b } else { b + 1 };
                assert(self.elements@[a] == s[a2]);
                assert(self.elements@[b] == s[b2]);
            }
        }
        p
    }

    /// Puts a window taken with `take_at` back at position `i`.
    pub fn put_at(&mut self, i: usize, p: Placed)
        requires
            old(self).wf(),
            i <= old(self).elements@.len(),
            !has_window(old(self).elements@, p.window.id),
        ensures
            final(self).wf(),
            final(self).elements@ == old(self).elements@.insert(i as int, p),
            final(self).outputs@ == old(self).outputs@,
    {
        let ghost id = p.window.id;
        self.elements.insert(i, p);
        proof {
            let s = old(self).elements@;
            assert forall|a: int, b: int| 0 <= a < self.elements@.len() && 0 <= b < self.elements@.len() && a != b
                implies self.elements@[a].window.id != self.elements@[b].window.id by {
                if a != i && b != i {
                    let a2 = if a < i { a } else { a - 1 };
                    let b2 = if b < i { b } else { b - 1 };
                    assert(self.elements@[a] == s[a2]);
                    assert(self.elements@[b] == s[b2]);
                } else if a == i {
                    let b2 = if b < i { b } else { b - 1 };
                    assert(self.elements@[b] == s[b2]);
                } else {
                    let a2 = if a < i { a } else { a - 1 };
                    assert(self.elements@[a] == s[a2]);
                }
            }
        }
    }

    /// The location of the window with surface `id`, if mapped.
    pub open spec fn location(&self, id: u64) -> Option<Point> {
        location_in(self.elements@, id)
    }

    /// An empty space with no output.
    pub fn new() -> (r: Space)
        ensures
            r.wf(),
            r.elements@.len() == 0,
            r.outputs@.len() == 0,
    {
        Space { elements: Vec::new(), outputs: Vec::new() }
    }

    /// The position of the window with surface `id` in z-order.
    pub fn find(&self, id: u64) -> (r: Option<usize>)
        requires
            self.wf(),
        ensures
            match r {
                Some(i) => i < self.elements@.len() && self.elements@[i as int].window.id == id
                    && index_of(self.elements@, id) == i,
                None => !has_window(self.elements@, id),
            },
    {
        let n = self.elements.len();
        let mut i: usize = 0;
        while i < n
            invariant
                n == self.elements@.len(),
                i <= n,
                self.wf(),
                forall|j: int| 0 <= j < i ==> self.elements@[j].window.id != id,
            decreases n - i,
        {
            if self.elements[i].window.id == id {
                proof {
                    let e = self.elements@;
                    assert(has_window(e, id));
                    let j = index_of(e, id);
                    assert(e[j].window.id == id);
                    assert(j == i as int);
                }
                return Some(i);
            }
            i = i + 1;
        }
        None
    }

    /// The location of the window with surface `id`, if it is mapped.
    pub fn element_location(&self, id: u64) -> (r: Option<Point>)
        requires
            self.wf(),
        ensures
            r == self.location(id),
    {
        match self.find(id) {
            Some(i) => Some(self.elements[i].loc),
            None => None,
        }
    }

    /// Takes the window with surface `id` out of the space.
    pub fn unmap(&mut self, id: u64) -> (r: Option<AvWindow>)
        requires
            old(self).wf(),
        ensures
            final(self).wf(),
            final(self).outputs@ == old(self).outputs@,
            !has_window(final(self).elements@, id),
            match r {
                Some(w) => has_window(old(self).elements@, id) && w == old(self).elements@[index_of(old(self).elements@, id)].window
                    && final(self).elements@ == old(self).elements@.remove(index_of(old(self).elements@, id)),
                None => !has_window(old(self).elements@, id) && final(self).elements@ == old(self).elements@,
            },
    {
        match self.find(id) {
            Some(i) => {
                let p = self.take_at(i);
                Some(p.window)
            },
            None => None,
        }
    }

    /// Places `window` at `loc` on top of all others, replacing any earlier
    /// placement of the same surface; with `activate`, the window's pending
    /// state is marked activated.
    pub fn map(&mut self, window: AvWindow, loc: Point, activate: bool)
        requires
            old(self).wf(),
        ensures
            final(self).wf(),
            final(self).outputs@ == old(self).outputs@,
            final(self).location(window.id) == Some(loc),
            final(self).elements@.len() > 0,
            final(self).elements@.last().loc == loc,
            final(self).elements@.last().window.id == window.id,
            final(self).elements@.last().window.pending.activated == (activate || window.pending.activated),
            same_but_activation(final(self).elements@.last().window, window),
            final(self).elements@.drop_last() == (if has_window(old(self).elements@, window.id) {
                old(self).elements@.remove(index_of(old(self).elements@, window.id))
            } else {
                old(self).elements@
            }),
    {
        let id = window.id;
        let _ = self.unmap(id);
        let mut w = window;
        if activate {
            w.pending.activated = true;
        }
        let ghost before = self.elements@;
        self.elements.push(Placed { window: w, loc });
        proof {
            let s = self.elements@;
            assert(s.drop_last() =~= before);
            assert(s[s.len() - 1].window.id == id);
            assert(ids_unique(s));
            assert(has_window(s, id));
            assert(index_of(s, id) == s.len() - 1);
        }
    }

    /// Moves the mapped window with surface `id` to `loc` and raises it on
    /// top; with `activate`, marks it activated. Nothing happens when it is
    /// not mapped.
    pub fn map_element(&mut self, id: u64, loc: Point, activate: bool)
        requires
            old(self).wf(),
        ensures
            final(self).wf(),
            final(self).outputs@ == old(self).outputs@,
            has_window(old(self).elements@, id) ==> final(self).location(id) == Some(loc),
            has_window(old(self).elements@, id) ==> final(self).elements@.len() == old(self).elements@.len(),
            has_window(old(self).elements@, id) ==> {
                &&& final(self).elements@.last().window.id == id
                &&& has_window(final(self).elements@, id)
                &&& same_but_activation(final(self).window(id), old(self).window(id))
                &&& final(self).window(id).pending.activated == (activate || old(self).window(id).pending.activated)
            },
            !has_window(old(self).elements@, id) ==> final(self).elements@ == old(self).elements@,
            forall|o: u64| o != id ==> #[trigger] final(self).location(o) == old(self).location(o),
    {
        let ghost s = self.elements@;
        match self.unmap(id) {
            Some(w) => {
                self.map(w, loc, activate);
                proof {
                    self.lemma_others_kept(s, id);
                    let e = self.elements@;
                    assert(has_window(e, id));
                    assert(index_of(e, id) == e.len() - 1);
                }
            },
            None => {},
        }
    }

    proof fn lemma_others_kept(&self, s: Seq<Placed>, id: u64)
        requires
            ids_unique(s),
            self.wf(),
            has_window(s, id),
            self.elements@.len() > 0,
            self.elements@.last().window.id == id,
            self.elements@.drop_last() == s.remove(index_of(s, id)),
        ensures
            forall|o: u64| o != id ==> #[trigger] self.location(o) == location_in(s, o),
            self.elements@.len() == s.len(),
    {
        let e = self.elements@;
        let i = index_of(s, id);
        assert(e.drop_last().len() == s.len() - 1);
        assert(e.len() == s.len());
        assert forall|o: u64| o != id implies #[trigger] self.location(o) == location_in(s, o) by {
            if has_window(s, o) {
                let j = index_of(s, o);
                assert(j != i);
                let k = if j < i { j } else { j - 1 };
                assert(s.remove(i)[k] == s[j]);
                assert(e.drop_last()[k] == s[j]);
                assert(e.drop_last()[k] == e[k]);
                assert(e[k] == s[j]);
                assert(has_window(e, o));
                assert(index_of(e, o) == k);
            } else {
                if has_window(e, o) {
                    let k = index_of(e, o);
                    assert(k < e.len() - 1);
                    assert(e.drop_last()[k] == e[k]);
                    let j = if k < i { k } else { k + 1 };
                    assert(s.remove(i)[k] == s[j]);
                    assert(s[j] == e[k]);
                }
            }
        }
    }

    /// Drops every window that is no longer alive; the others keep their
    /// order and locations.
    pub fn refresh(&mut self)
        requires
            old(self).wf(),
        ensures
            final(self).wf(),
            final(self).outputs@ == old(self).outputs@,
            final(self).elements@ == live(old(self).elements@),
    {
        let ghost s = self.elements@;
        let mut rest: Vec<Placed> = Vec::new();
        std::mem::swap(&mut rest, &mut self.elements);
        let n = rest.len();
        let mut i: usize = 0;
        while i < n
            invariant
                n == s.len(),
                i <= n,
                rest@ == s.subrange(i as int, n as int),
                self.elements@ == live(s.subrange(0, i as int)),
                self.outputs@ == old(self).outputs@,
            decreases n - i,
        {
            let p = rest.remove(0);
            proof {
                assert(s.subrange(0, i + 1).drop_last() =~= s.subrange(0, i as int));
                assert(s.subrange(0, i + 1).last() == s[i as int]);
                assert(rest@ =~= s.subrange(i + 1, n as int));
            }
            if p.window.alive {
                self.elements.push(p);
            }
            i = i + 1;
        }
        proof {
            assert(s.subrange(0, n as int) =~= s);
            lemma_live_unique(s);
        }
    }

    /// The topmost window whose rectangle holds `point`, with its location.
    pub fn element_under(&self, point: Point) -> (r: Option<(u64, Point)>)
        ensures
            r == (match topmost_index(self.elements@, point) {
                Some(i) => Some((self.elements@[i].window.id, self.elements@[i].loc)),
                None => None::<(u64, Point)>,
            }),
            match topmost_index(self.elements@, point) {
                Some(i) => 0 <= i < self.elements@.len(),
                None => true,
            },
    {
        let ghost s = self.elements@;
        let mut i: usize = self.elements.len();
        proof { assert(s.subrange(0, i as int) =~= s); }
        while i > 0
            invariant
                i <= s.len(),
                s == self.elements@,
                topmost_index(s, point) == topmost_index(s.subrange(0, i as int), point),
            decreases i,
        {
            let p = &self.elements[i - 1];
            let rect = Rectangle { loc: p.loc, size: p.window.geometry };
            proof {
                let t = s.subrange(0, i as int);
                assert(t.last() == s[i - 1]);
                assert(t.drop_last() =~= s.subrange(0, i - 1));
            }
            if rect.contains(point) {
                return Some((p.window.id, p.loc));
            }
            i = i - 1;
        }
        None
    }

    /// The surfaces of the mapped windows, in z-order.
    pub fn element_ids(&self) -> (r: Vec<u64>)
        ensures
            r@.len() == self.elements@.len(),
            forall|i: int| 0 <= i < r@.len() ==> r@[i] == #[trigger] self.elements@[i].window.id,
    {
        let mut r: Vec<u64> = Vec::new();
        let n = self.elements.len();
        let mut i: usize = 0;
        while i < n
            invariant
                n == self.elements@.len(),
                i <= n,
                r@.len() == i,
                forall|k: int| 0 <= k < i ==> r@[k] == #[trigger] self.elements@[k].window.id,
            decreases n - i,
        {
            r.push(self.elements[i].window.id);
            i = i + 1;
        }
        r
    }

    /// Registers an output, or moves an output already registered: its
    /// (first) entry is replaced in place.
    pub fn map_output(&mut self, id: u64, geometry: Rectangle)
        ensures
            final(self).elements@ == old(self).elements@,
            (exists|k: int| 0 <= k < old(self).outputs@.len() && old(self).outputs@[k].id == id) ==> exists|k: int|
                0 <= k < old(self).outputs@.len() && old(self).outputs@[k].id == id
                && (forall|j: int| 0 <= j < k ==> (#[trigger] old(self).outputs@[j]).id != id)
                && final(self).outputs@ == old(self).outputs@.update(k, OutputEntry { id, geometry }),
            !(exists|k: int| 0 <= k < old(self).outputs@.len() && old(self).outputs@[k].id == id) ==>
                final(self).outputs@ == old(self).outputs@.push(OutputEntry { id, geometry }),
    {
        let n = self.outputs.len();
        let mut i: usize = 0;
        while i < n
            invariant
                n == self.outputs@.len(),
                i <= n,
                self.outputs@ == old(self).outputs@,
                self.elements@ == old(self).elements@,
                forall|j: int| 0 <= j < i ==> (#[trigger] self.outputs@[j]).id != id,
            decreases n - i,
        {
            if self.outputs[i].id == id {
                self.outputs.set(i, OutputEntry { id, geometry });
                assert(self.outputs@ == old(self).outputs@.update(i as int, OutputEntry { id, geometry }));
                return;
            }
            i = i + 1;
        }
        self.outputs.push(OutputEntry { id, geometry });
    }

    /// The geometry of output `id`, if registered (the first entry with
    /// that identity).
    pub fn output_geometry(&self, id: u64) -> (r: Option<Rectangle>)
        ensures
            match r {
                Some(g) => exists|i: int| 0 <= i < self.outputs@.len() && self.outputs@[i] == (OutputEntry { id, geometry: g })
                    && forall|j: int| 0 <= j < i ==> #[trigger] self.outputs@[j].id != id,
                None => forall|j: int| 0 <= j < self.outputs@.len() ==> #[trigger] self.outputs@[j].id != id,
            },
    {
        let n = self.outputs.len();
        let mut i: usize = 0;
        while i < n
            invariant
                n == self.outputs@.len(),
                i <= n,
                forall|j: int| 0 <= j < i ==> #[trigger] self.outputs@[j].id != id,
            decreases n - i,
        {
            if self.outputs[i].id == id {
                return Some(self.outputs[i].geometry);
            }
            i = i + 1;
        }
        None
    }

    /// The outputs whose geometry overlaps the window with surface `id`,
    /// in registration order; none when the window is not mapped.
    pub fn outputs_for_element(&self, id: u64) -> (r: Vec<u64>)
        requires
            self.wf(),
        ensures
            !has_window(self.elements@, id) ==> r@.len() == 0,
            has_window(self.elements@, id) ==> r@ == self.outputs@.filter(
                |o: OutputEntry| o.geometry.overlaps_spec(placed_rect(self.elements@[index_of(self.elements@, id)]))).map_values(|o: OutputEntry| o.id),
    {
        let mut r: Vec<u64> = Vec::new();
        match self.find(id) {
            None => r,
            Some(k) => {
                let p = &self.elements[k];
                let rect = Rectangle { loc: p.loc, size: p.window.geometry };
                let n = self.outputs.len();
                let mut i: usize = 0;
                while i < n
                    invariant
                        n == self.outputs@.len(),
                        i <= n,
                        r@ == self.outputs@.subrange(0, i as int).filter(|o: OutputEntry| o.geometry.overlaps_spec(rect)).map_values(|o: OutputEntry| o.id),
                    decreases n - i,
                {
                    let o = self.outputs[i];
                    proof {
                        assert(self.outputs@.subrange(0, i + 1) =~= self.outputs@.subrange(0, i as int).push(o));
                        self.outputs@.subrange(0, i as int).lemma_filter_push(o, |o: OutputEntry| o.geometry.overlaps_spec(rect));
                    }
                    if o.geometry.overlaps(&rect) {
                        r.push(o.id);
                        proof {
                            let s = self.outputs@.subrange(0, i as int).filter(|o: OutputEntry| o.geometry.overlaps_spec(rect));
                            assert(s.push(o).map_values(|o: OutputEntry| o.id) =~= s.map_values(|o: OutputEntry| o.id).push(o.id));
                        }
                    }
                    i = i + 1;
                }
                proof {
                    assert(self.outputs@.subrange(0, n as int) =~= self.outputs@);
                }
                r
            },
        }
    }
}

} // verus!
