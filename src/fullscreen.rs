use vstd::prelude::*;
use crate::table::SideTable;

verus! {

/// The window presented fullscreen on each output, keyed by output
/// identity. An output without a window presents none.
#[derive(Debug)]
pub struct FullscreenSurfaces {
    pub table: SideTable<Option<u64>>,
}

impl FullscreenSurfaces {
    pub open spec fn wf(&self) -> bool {
        self.table.wf()
    }

    /// The window presented fullscreen on output `id`.
    pub open spec fn state(&self, id: u64) -> Option<u64> {
        match self.table.lookup(id) {
            Some(w) => w,
            None => None,
        }
    }

    pub fn new() -> (r: FullscreenSurfaces)
        ensures
            r.wf(),
            forall|id: u64| #[trigger] r.state(id) is None,
    {
        let table = SideTable::new();
        proof {
            assert forall|id: u64| #[trigger] table.lookup(id) is None by {}
        }
        FullscreenSurfaces { table }
    }

    /// The window presented fullscreen on output `id`.
    pub fn get_surface(&self, id: u64) -> (r: Option<u64>)
        requires
            self.wf(),
        ensures
            r == self.state(id),
    {
        match self.table.get(id) {
            Some(w) => w,
            None => None,
        }
    }

    /// Sets the window presented fullscreen on output `id` (`None` clears
    /// it); every other output keeps its own.
    pub fn set(&mut self, id: u64, s: Option<u64>)
        requires
            old(self).wf(),
        ensures
            final(self).wf(),
            final(self).state(id) == s,
            forall|o: u64| o != id ==> #[trigger] final(self).state(o) == old(self).state(o),
    {
        self.table.set(id, s);
        proof {
            assert forall|o: u64| o != id implies #[trigger] self.state(o) == old(self).state(o) by {
                assert(self.table.lookup(o) == old(self).table.lookup(o));
            }
        }
    }
}

} // verus!
