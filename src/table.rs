use vstd::prelude::*;

verus! {

/// A value for each key it was given one, keyed by identity (a surface,
/// an output). An entry, once made, is kept; setting a key again replaces
/// its value in place.
#[derive(Debug)]
pub struct SideTable<V> {
    pub entries: Vec<(u64, V)>,
}

impl<V: Copy> SideTable<V> {
    pub open spec fn wf(&self) -> bool {
        forall|i: int, j: int| 0 <= i < self.entries@.len() && 0 <= j < self.entries@.len() && i != j
            ==> self.entries@[i].0 != self.entries@[j].0
    }

    /// The value of key `id`, if it has one.
    pub open spec fn lookup(&self, id: u64) -> Option<V> {
        if exists|i: int| 0 <= i < self.entries@.len() && self.entries@[i].0 == id {
            Some(self.entries@[choose|i: int| 0 <= i < self.entries@.len() && self.entries@[i].0 == id].1)
        } else {
            None
        }
    }

    pub fn new() -> (r: SideTable<V>)
        ensures
            r.wf(),
            forall|id: u64| #[trigger] r.lookup(id) is None,
    {
        SideTable { entries: Vec::new() }
    }

    fn find(&self, id: u64) -> (r: Option<usize>)
        requires
            self.wf(),
        ensures
            match r {
                Some(i) => i < self.entries@.len() && self.entries@[i as int].0 == id
                    && self.lookup(id) == Some(self.entries@[i as int].1),
                None => self.lookup(id) is None
                    && forall|j: int| 0 <= j < self.entries@.len() ==> self.entries@[j].0 != id,
            },
    {
        let n = self.entries.len();
        let mut i: usize = 0;
        while i < n
            invariant
                n == self.entries@.len(),
                i <= n,
                self.wf(),
                forall|j: int| 0 <= j < i ==> self.entries@[j].0 != id,
            decreases n - i,
        {
            if self.entries[i].0 == id {
                proof {
                    let k = choose|k: int| 0 <= k < self.entries@.len() && self.entries@[k].0 == id;
                    assert(k == i as int);
                }
                return Some(i);
            }
            i = i + 1;
        }
        None
    }

    /// The value of key `id`, if it has one.
    pub fn get(&self, id: u64) -> (r: Option<V>)
        requires
            self.wf(),
        ensures
            r == self.lookup(id),
    {
        match self.find(id) {
            Some(i) => Some(self.entries[i].1),
            None => None,
        }
    }

    /// Gives key `id` the value `s`; every other key keeps its value.
    pub fn set(&mut self, id: u64, s: V)
        requires
            old(self).wf(),
        ensures
            final(self).wf(),
            final(self).lookup(id) == Some(s),
            forall|o: u64| o != id ==> #[trigger] final(self).lookup(o) == old(self).lookup(o),
    {
        match self.find(id) {
            Some(i) => {
                self.entries.set(i, (id, s));
                proof {
                    assert forall|o: u64| o != id implies #[trigger] self.lookup(o) == old(self).lookup(o) by {
                        if exists|j: int| 0 <= j < old(self).entries@.len() && old(self).entries@[j].0 == o {
                            let j = choose|j: int| 0 <= j < old(self).entries@.len() && old(self).entries@[j].0 == o;
                            assert(self.entries@[j] == old(self).entries@[j]);
                            let k = choose|k: int| 0 <= k < self.entries@.len() && self.entries@[k].0 == o;
                            assert(k == j);
                        } else {
                            assert forall|k: int| 0 <= k < self.entries@.len() implies self.entries@[k].0 != o by {
                                if k != i { assert(self.entries@[k] == old(self).entries@[k]); }
                            }
                        }
                    }
                    let k = choose|k: int| 0 <= k < self.entries@.len() && self.entries@[k].0 == id;
                    assert(self.entries@[i as int].0 == id);
                    assert(k == i as int);
                }
            },
            None => {
                self.entries.push((id, s));
                proof {
                    let n = old(self).entries@.len();
                    assert(self.entries@[n as int].0 == id);
                    let k = choose|k: int| 0 <= k < self.entries@.len() && self.entries@[k].0 == id;
                    assert(k == n);
                    assert forall|o: u64| o != id implies #[trigger] self.lookup(o) == old(self).lookup(o) by {
                        if exists|j: int| 0 <= j < old(self).entries@.len() && old(self).entries@[j].0 == o {
                            let j = choose|j: int| 0 <= j < old(self).entries@.len() && old(self).entries@[j].0 == o;
                            assert(self.entries@[j] == old(self).entries@[j]);
                            let k = choose|k: int| 0 <= k < self.entries@.len() && self.entries@[k].0 == o;
                            assert(k == j);
                        } else {
                            assert forall|k: int| 0 <= k < self.entries@.len() implies self.entries@[k].0 != o by {
                                if k < n { assert(self.entries@[k] == old(self).entries@[k]); }
                            }
                        }
                    }
                }
            },
        }
    }
}

} // verus!
