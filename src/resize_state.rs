use vstd::prelude::*;
use crate::edges::ResizeEdge;
use crate::geometry::Rectangle;
use crate::table::SideTable;

verus! {

/// What a resize operation started from.
#[derive(Clone, Copy, Debug, PartialEq, Eq, Structural)]
pub struct ResizeData {
    /// The edges the surface is being resized with.
    pub edges: ResizeEdge,
    /// The window rectangle when the resize started.
    pub initial_rect: Rectangle,
}

/// Where a surface stands in the interactive resize handshake.
#[derive(Clone, Copy, Debug, PartialEq, Eq, Structural)]
pub enum ResizeState {
    /// The surface is not being resized.
    Idle,
    /// The surface is currently being resized.
    Resizing(ResizeData),
    /// The resize has finished; the client has to acknowledge the final
    /// configure, whose serial is kept.
    WaitingForFinalAck(ResizeData, u32),
    /// The resize has finished; the surface has to commit its final state.
    WaitingForCommit(ResizeData),
}

/// What `commit` hands back from a state: the edges and the initial
/// rectangle while a resize is under way, nothing when idle.
pub open spec fn commit_result(s: ResizeState) -> Option<(ResizeEdge, Rectangle)> {
    match s {
        ResizeState::Idle => None,
        ResizeState::Resizing(d) => Some((d.edges, d.initial_rect)),
        ResizeState::WaitingForFinalAck(d, _) => Some((d.edges, d.initial_rect)),
        ResizeState::WaitingForCommit(d) => Some((d.edges, d.initial_rect)),
    }
}

/// The state after a commit: a resize waiting for its commit is over.
pub open spec fn after_commit(s: ResizeState) -> ResizeState {
    match s {
        ResizeState::WaitingForCommit(_) => ResizeState::Idle,
        _ => s,
    }
}

/// The state after the client acknowledged the configure with serial
/// `acked`, where `resizing` tells whether the surface's current toplevel
/// state still shows the resizing flag.
pub open spec fn after_ack(s: ResizeState, acked: u32, resizing: bool) -> ResizeState {
    match s {
        ResizeState::WaitingForFinalAck(d, serial) => if acked >= serial && resizing {
            ResizeState::WaitingForCommit(d)
        } else {
            s
        },
        _ => s,
    }
}

impl ResizeState {
    /// The initial state of every surface.
    pub fn idle() -> (r: ResizeState)
        ensures
            r == ResizeState::Idle,
    {
        ResizeState::Idle
    }

    /// Applies a buffer commit of the surface: returns the edges and the
    /// initial rectangle of a resize under way and ends one that was only
    /// waiting for this commit.
    pub fn commit(&mut self) -> (r: Option<(ResizeEdge, Rectangle)>)
        ensures
            r == commit_result(*old(self)),
            *final(self) == after_commit(*old(self)),
    {
        match *self {
            ResizeState::Idle => None,
            ResizeState::Resizing(d) => Some((d.edges, d.initial_rect)),
            ResizeState::WaitingForFinalAck(d, _) => Some((d.edges, d.initial_rect)),
            ResizeState::WaitingForCommit(d) => {
                *self = ResizeState::Idle;
                Some((d.edges, d.initial_rect))
            },
        }
    }

    /// Applies the client's acknowledgment of the configure with serial
    /// `acked`. Only a final acknowledgment, at or after the stored serial,
    /// of a surface whose current state still shows resizing moves the
    /// state on; any other acknowledgment leaves it as it is.
    pub fn ack_configure(&mut self, acked: u32, resizing: bool)
        ensures
            *final(self) == after_ack(*old(self), acked, resizing),
    {
        if let ResizeState::WaitingForFinalAck(d, serial) = *self {
            if acked >= serial && resizing {
                *self = ResizeState::WaitingForCommit(d);
            }
        }
    }
}

/// The resize state of every surface, keyed by surface identity. A
/// surface without an entry is `Idle`.
#[derive(Debug)]
pub struct ResizeStates {
    pub table: SideTable<ResizeState>,
}

impl ResizeStates {
    pub open spec fn wf(&self) -> bool {
        self.table.wf()
    }

    /// The state of surface `id`: its entry, or `Idle` without one.
    pub open spec fn state(&self, id: u64) -> ResizeState {
        match self.table.lookup(id) {
            Some(s) => s,
            None => ResizeState::Idle,
        }
    }

    pub fn new() -> (r: ResizeStates)
        ensures
            r.wf(),
            forall|id: u64| #[trigger] r.state(id) == ResizeState::Idle,
    {
        let table = SideTable::new();
        proof {
            assert forall|id: u64| #[trigger] table.lookup(id) is None by {}
        }
        ResizeStates { table }
    }

    /// The state of surface `id`.
    pub fn get(&self, id: u64) -> (r: ResizeState)
        requires
            self.wf(),
        ensures
            r == self.state(id),
    {
        match self.table.get(id) {
            Some(s) => s,
            None => ResizeState::Idle,
        }
    }

    /// Sets the state of surface `id`; every other surface keeps its state.
    pub fn set(&mut self, id: u64, s: ResizeState)
        requires
            old(self).wf(),
        ensures
            final(self).wf(),
            final(self).state(id) == s,
            forall|o: u64| o != id ==> #[trigger] final(self).state(o) == old(self).state(o),
    {
        self.table.set(id, s);
        proof {
            assert forall|o: u64| o != id implies #[trigger] self.state(o) == old(self).state(o) by {
                assert(self.table.lookup(o) == old(self).table.lookup(o));
            }
        }
    }
}

/// From `Idle`, a commit yields nothing and keeps the state idle.
pub proof fn lemma_idle_commit_yields_none()
    ensures
        commit_result(ResizeState::Idle) is None,
        after_commit(ResizeState::Idle) == ResizeState::Idle,
{
}

/// From `WaitingForFinalAck(d, serial)`, a matching acknowledgment (at or
/// after `serial`, with the resizing flag still current) followed by a
/// commit yields `d`'s edges and initial rectangle and returns the state to
/// `Idle`; a second commit right after yields nothing.
pub proof fn lemma_ack_then_commit(d: ResizeData, serial: u32, acked: u32)
    requires
        acked >= serial,
    ensures
        ({
            let s1 = after_ack(ResizeState::WaitingForFinalAck(d, serial), acked, true);
            &&& commit_result(s1) == Some((d.edges, d.initial_rect))
            &&& after_commit(s1) == ResizeState::Idle
            &&& commit_result(after_commit(s1)) is None
        }),
{
}

} // verus!
