//! The iterator family: entry, key and value iterators over a container's
//! state at the moment of their creation, and the predicate-driven
//! extraction cursor.
//!
//! Every iterator is exact-sized (its reported length equals the number of
//! entries still to come and falls by one per yielded item) and fused
//! (once it reports exhaustion it keeps reporting exhaustion).

use vstd::prelude::*;
use crate::map::HashMap;
use crate::map::raw_entries_of;

verus! {

/// An iterator over a container's (key, value) entries, in no specified
/// order.
pub struct Iter {
    pub(crate) entries: Vec<(u64, u64)>,
    pub(crate) pos: usize,
}

impl View for Iter {
    type V = Seq<(u64, u64)>;

    /// The entries still to be yielded, front first.
    closed spec fn view(&self) -> Seq<(u64, u64)> {
        self.entries@.skip(self.pos as int)
    }
}

impl Iter {
    #[verifier::type_invariant]
    pub(crate) closed spec fn in_range(self) -> bool {
        self.pos <= self.entries.len()
    }

    /// The next remaining entry, or nothing once exhausted; exhaustion is
    /// terminal.
    pub fn next(&mut self) -> (r: Option<(u64, u64)>)
        ensures
            old(self)@.len() > 0 ==> {
                &&& r == Some(old(self)@[0])
                &&& final(self)@ == old(self)@.skip(1)
            },
            old(self)@.len() == 0 ==> {
                &&& r is None
                &&& final(self)@ == old(self)@
            },
    {
        proof {
            use_type_invariant(&*self);
        }
        if self.pos < self.entries.len() {
            let e = self.entries[self.pos];
            self.pos = self.pos + 1;
            Some(e)
        } else {
            None
        }
    }

    /// Exactly how many entries are still to come.
    pub fn len(&self) -> (r: usize)
        ensures
            r == self@.len(),
    {
        proof {
            use_type_invariant(self);
        }
        self.entries.len() - self.pos
    }
}

impl Clone for Iter {
    /// The clone yields the same remaining entries; neither side is
    /// consumed by cloning.
    fn clone(&self) -> (r: Self)
        ensures
            r@ == self@,
    {
        proof {
            use_type_invariant(self);
        }
        let mut entries: Vec<(u64, u64)> = Vec::new();
        let mut i: usize = self.pos;
        while i < self.entries.len()
            invariant
                self.pos <= i <= self.entries.len(),
                entries@ =~= self.entries@.subrange(self.pos as int, i as int),
            decreases self.entries.len() - i,
        {
            entries.push(self.entries[i]);
            i = i + 1;
        }
        let r = Iter { entries, pos: 0 };
        proof {
            assert(r@ =~= self.entries@.subrange(self.pos as int, self.entries@.len() as int));
            assert(self@ =~= self.entries@.subrange(self.pos as int, self.entries@.len() as int));
        }
        r
    }
}

/// An iterator over a container's keys, in no specified order.
pub struct Keys {
    pub(crate) inner: Iter,
}

impl View for Keys {
    type V = Seq<u64>;

    /// The keys still to be yielded, front first.
    closed spec fn view(&self) -> Seq<u64> {
        self.inner@.map_values(|e: (u64, u64)| e.0)
    }
}

impl Keys {
    /// The next remaining key, or nothing once exhausted; exhaustion is
    /// terminal.
    pub fn next(&mut self) -> (r: Option<u64>)
        ensures
            old(self)@.len() > 0 ==> {
                &&& r == Some(old(self)@[0])
                &&& final(self)@ == old(self)@.skip(1)
            },
            old(self)@.len() == 0 ==> {
                &&& r is None
                &&& final(self)@ == old(self)@
            },
    {
        let r = self.inner.next();
        proof {
            assert(final(self)@ =~= self.inner@.map_values(|e: (u64, u64)| e.0));
        }
        match r {
            Some(e) => Some(e.0),
            None => None,
        }
    }

    /// Exactly how many keys are still to come.
    pub fn len(&self) -> (r: usize)
        ensures
            r == self@.len(),
    {
        self.inner.len()
    }
}

impl Clone for Keys {
    /// The clone yields the same remaining keys.
    fn clone(&self) -> (r: Self)
        ensures
            r@ == self@,
    {
        Keys { inner: self.inner.clone() }
    }
}

/// Whether some key of `m` maps to `v`.
pub open spec fn is_value_of(m: Map<u64, u64>, v: u64) -> bool {
    exists|k: u64| #[trigger] m.dom().contains(k) && m[k] == v
}

/// An iterator over a container's values, in no specified order.
pub struct Values {
    pub(crate) inner: Iter,
}

impl View for Values {
    type V = Seq<u64>;

    /// The values still to be yielded, front first.
    closed spec fn view(&self) -> Seq<u64> {
        self.inner@.map_values(|e: (u64, u64)| e.1)
    }
}

impl Values {
    /// The next remaining value, or nothing once exhausted; exhaustion is
    /// terminal.
    pub fn next(&mut self) -> (r: Option<u64>)
        ensures
            old(self)@.len() > 0 ==> {
                &&& r == Some(old(self)@[0])
                &&& final(self)@ == old(self)@.skip(1)
            },
            old(self)@.len() == 0 ==> {
                &&& r is None
                &&& final(self)@ == old(self)@
            },
    {
        let r = self.inner.next();
        proof {
            assert(final(self)@ =~= self.inner@.map_values(|e: (u64, u64)| e.1));
        }
        match r {
            Some(e) => Some(e.1),
            None => None,
        }
    }

    /// Exactly how many values are still to come.
    pub fn len(&self) -> (r: usize)
        ensures
            r == self@.len(),
    {
        self.inner.len()
    }
}

impl Clone for Values {
    /// The clone yields the same remaining values.
    fn clone(&self) -> (r: Self)
        ensures
            r@ == self@,
    {
        Values { inner: self.inner.clone() }
    }
}

impl HashMap {
    /// An iterator over the entries as they stand now: it will yield each
    /// current entry exactly once, and its length is exactly `len()` at
    /// creation time.
    pub fn iter(&self) -> (r: Iter)
        ensures
            r@.len() == self@.dom().len(),
            forall|i: int, j: int| 0 <= i < j < r@.len() ==> r@[i].0 != r@[j].0,
            forall|i: int| 0 <= i < r@.len()
                ==> self@.dom().contains(#[trigger] r@[i].0) && self@[r@[i].0] == r@[i].1,
            forall|k: u64| #[trigger] self@.dom().contains(k)
                ==> exists|i: int| 0 <= i < r@.len() && (#[trigger] r@[i]) == (k, self@[k]),
    {
        let entries = raw_entries_of(self);
        let r = Iter { entries, pos: 0 };
        proof {
            assert(r@ =~= r.entries@);
        }
        r
    }

    /// An iterator over the keys as they stand now; one key per entry.
    pub fn keys(&self) -> (r: Keys)
        ensures
            r@.len() == self@.dom().len(),
            forall|i: int, j: int| 0 <= i < j < r@.len() ==> r@[i] != r@[j],
            forall|i: int| 0 <= i < r@.len() ==> self@.dom().contains(#[trigger] r@[i]),
            forall|k: u64| #[trigger] self@.dom().contains(k)
                ==> exists|i: int| 0 <= i < r@.len() && (#[trigger] r@[i]) == k,
    {
        let inner = self.iter();
        let r = Keys { inner };
        proof {
            let f = |e: (u64, u64)| e.0;
            assert(r@ =~= r.inner@.map_values(f));
            assert forall|k: u64| #[trigger] self@.dom().contains(k)
                implies exists|i: int| 0 <= i < r@.len() && (#[trigger] r@[i]) == k by {
                let i = choose|i: int| 0 <= i < r.inner@.len()
                    && (#[trigger] r.inner@[i]) == (k, self@[k]);
                assert(r@[i] == k);
            }
        }
        r
    }

    /// An iterator over the values as they stand now; one value per entry,
    /// repeated values included.
    pub fn values(&self) -> (r: Values)
        ensures
            r@.len() == self@.dom().len(),
            forall|i: int| 0 <= i < r@.len() ==> is_value_of(self@, #[trigger] r@[i]),
            forall|k: u64| #[trigger] self@.dom().contains(k)
                ==> exists|i: int| 0 <= i < r@.len() && (#[trigger] r@[i]) == self@[k],
    {
        let inner = self.iter();
        let r = Values { inner };
        proof {
            let f = |e: (u64, u64)| e.1;
            assert(r@ =~= r.inner@.map_values(f));
            assert forall|i: int| 0 <= i < r@.len()
                implies is_value_of(self@, #[trigger] r@[i]) by {
                let e = r.inner@[i];
                assert(r@[i] == e.1);
                assert(self@.dom().contains(e.0) && self@[e.0] == e.1);
                assert(self@.dom().contains(e.0) && self@[e.0] == r@[i]);
            }
            assert forall|k: u64| #[trigger] self@.dom().contains(k)
                implies exists|i: int| 0 <= i < r@.len() && (#[trigger] r@[i]) == self@[k] by {
                let i = choose|i: int| 0 <= i < r.inner@.len()
                    && (#[trigger] r.inner@[i]) == (k, self@[k]);
                assert(r@[i] == self@[k]);
            }
        }
        r
    }
}

} // verus!
