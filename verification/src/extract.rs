//! The predicate-driven extraction cursor: a lazy, mutating iterator over
//! a container. Each step inspects the next pending entry; an entry the
//! predicate accepts is removed from the container and yielded, one the
//! predicate rejects stays in place. Driving the cursor to exhaustion
//! visits every entry exactly once; abandoning it early leaves all
//! unvisited entries untouched.

use vstd::prelude::*;
use crate::map::HashMap;
use crate::map::raw_entries_of;

verus! {

/// The extraction cursor over a container. It snapshots the container's
/// keys at creation; each `next` call drives it further. The container it
/// was created from is handed back to every `next` call: that call is the
/// only mutation channel while an extraction is in progress.
pub struct ExtractIf<F: Fn(u64, u64) -> bool> {
    keys: Vec<u64>,
    pos: usize,
    pred: F,
}

impl<F: Fn(u64, u64) -> bool> ExtractIf<F> {
    /// The keys still to be visited, in visiting order.
    pub closed spec fn remaining(self) -> Seq<u64> {
        self.keys@.skip(self.pos as int)
    }

    /// The predicate driving the extraction.
    pub closed spec fn predicate(self) -> F {
        self.pred
    }

    /// Whether this cursor still belongs to a container holding `m`: every
    /// pending key is distinct and present in `m`.
    pub closed spec fn valid_for(self, m: Map<u64, u64>) -> bool {
        &&& self.pos <= self.keys.len()
        &&& forall|a: int, b: int| self.pos <= a < b < self.keys@.len()
            ==> self.keys@[a] != self.keys@[b]
        &&& forall|a: int| self.pos <= a < self.keys@.len()
            ==> m.dom().contains(#[trigger] self.keys@[a])
    }

    /// Drive the extraction one step through `m`, the container this
    /// cursor was created from. Pending entries the predicate rejects are
    /// skipped and left in place with their values; the first pending
    /// entry the predicate accepts is removed from `m` and yielded.
    /// Nothing is yielded once no pending entry is accepted, and the
    /// cursor is then exhausted for good.
    pub fn next(&mut self, m: &mut HashMap) -> (r: Option<(u64, u64)>)
        requires
            old(self).valid_for(old(m)@),
            forall|k: u64, v: u64| #[trigger] call_requires(old(self).predicate(), (k, v)),
        ensures
            final(self).valid_for(final(m)@),
            final(self).predicate() == old(self).predicate(),
            final(m).seed() == old(m).seed(),
            r matches Some(e) ==> {
                &&& old(m)@.dom().contains(e.0)
                &&& old(m)@[e.0] == e.1
                &&& call_ensures(old(self).predicate(), (e.0, e.1), true)
                &&& final(m)@ == old(m)@.remove(e.0)
                &&& old(self).remaining().contains(e.0)
                &&& !final(self).remaining().contains(e.0)
            },
            r is None ==> {
                &&& final(m)@ == old(m)@
                &&& final(self).remaining().len() == 0
            },
            forall|k: u64| old(self).remaining().contains(k)
                && !final(self).remaining().contains(k)
                && (#[trigger] final(m)@.dom().contains(k))
                ==> call_ensures(old(self).predicate(), (k, old(m)@[k]), false)
                    && final(m)@[k] == old(m)@[k],
    {
        let ghost p0 = self.pos as int;
        while self.pos < self.keys.len()
            invariant
                forall|k: u64, v: u64| #[trigger] call_requires(old(self).predicate(), (k, v)),
                p0 <= self.pos as int <= self.keys@.len(),
                self.keys == old(self).keys,
                self.pred == old(self).pred,
                p0 == old(self).pos as int,
                *m == *old(m),
                old(self).valid_for(old(m)@),
                forall|a: int| p0 <= a < self.pos as int
                    ==> call_ensures(self.pred,
                        ((#[trigger] self.keys@[a]), old(m)@[self.keys@[a]]), false),
            decreases self.keys@.len() - self.pos as int,
        {
            let k = self.keys[self.pos];
            let v = *m.index(k);
            proof {
                assert(self.pred == old(self).predicate());
                assert(call_requires(self.pred, (k, v)));
            }
            let take = (self.pred)(k, v);
            self.pos = self.pos + 1;
            if take {
                m.remove(k);
                proof {
                    let posf = self.pos as int;
                    assert(old(self).remaining()[posf - 1 - p0] == k);
                    assert(old(self).remaining().contains(k));
                    assert forall|a: int| posf <= a < self.keys@.len()
                        implies final(m)@.dom().contains(#[trigger] self.keys@[a]) by {
                        assert(self.keys@[a] != k);
                    }
                    assert(!final(self).remaining().contains(k)) by {
                        if final(self).remaining().contains(k) {
                            let b = choose|b: int| 0 <= b < final(self).remaining().len()
                                && final(self).remaining()[b] == k;
                            assert(self.keys@[posf + b] == k);
                            assert(self.keys@[posf - 1] == k);
                        }
                    }
                    assert forall|kk: u64| old(self).remaining().contains(kk)
                        && !final(self).remaining().contains(kk)
                        && (#[trigger] final(m)@.dom().contains(kk))
                        implies call_ensures(old(self).predicate(), (kk, old(m)@[kk]), false)
                            && final(m)@[kk] == old(m)@[kk] by {
                        let b = choose|b: int| 0 <= b < old(self).remaining().len()
                            && old(self).remaining()[b] == kk;
                        let a = p0 + b;
                        assert(self.keys@[a] == kk);
                        assert(kk != k);
                        if a >= posf {
                            assert(final(self).remaining()[a - posf] == kk);
                        }
                        assert(a < posf - 1 || a == posf - 1);
                        assert(a != posf - 1);
                    }
                }
                return Some((k, v));
            }
        }
        proof {
            assert(final(self).remaining().len() == 0);
            assert forall|kk: u64| old(self).remaining().contains(kk)
                && !final(self).remaining().contains(kk)
                && (#[trigger] final(m)@.dom().contains(kk))
                implies call_ensures(old(self).predicate(), (kk, old(m)@[kk]), false)
                    && final(m)@[kk] == old(m)@[kk] by {
                let b = choose|b: int| 0 <= b < old(self).remaining().len()
                    && old(self).remaining()[b] == kk;
                assert(self.keys@[p0 + b] == kk);
            }
        }
        None
    }

    /// How many entries are still pending a visit.
    pub fn pending(&self) -> (r: usize)
        ensures
            r == self.remaining().len(),
    {
        proof {
            use_type_invariant(self);
        }
        self.keys.len() - self.pos
    }

    #[verifier::type_invariant]
    spec fn in_range(self) -> bool {
        self.pos <= self.keys.len()
    }
}

impl HashMap {
    /// Begin a predicate-driven extraction over the entries as they stand
    /// now. The cursor starts with every current key pending, and `m` in
    /// its contract is this container.
    pub fn extract_if<F: Fn(u64, u64) -> bool>(&self, pred: F) -> (r: ExtractIf<F>)
        ensures
            r.valid_for(self@),
            r.predicate() == pred,
            r.remaining().len() == self@.dom().len(),
            forall|k: u64| #[trigger] self@.dom().contains(k) ==> r.remaining().contains(k),
    {
        let entries = raw_entries_of(self);
        let mut keys: Vec<u64> = Vec::new();
        let mut i: usize = 0;
        while i < entries.len()
            invariant
                i <= entries.len(),
                keys@.len() == i as int,
                forall|a: int| 0 <= a < i as int ==> (#[trigger] keys@[a]) == entries@[a].0,
                forall|a: int, b: int| 0 <= a < b < entries@.len()
                    ==> entries@[a].0 != entries@[b].0,
                forall|a: int| 0 <= a < entries@.len()
                    ==> self@.dom().contains(#[trigger] entries@[a].0),
                forall|k: u64| #[trigger] self@.dom().contains(k)
                    ==> exists|a: int| 0 <= a < entries@.len()
                        && (#[trigger] entries@[a]) == (k, self@[k]),
            decreases entries.len() - i,
        {
            keys.push(entries[i].0);
            i = i + 1;
        }
        let r = ExtractIf { keys, pos: 0, pred };
        proof {
            assert(r.remaining() =~= r.keys@);
            assert forall|k: u64| #[trigger] self@.dom().contains(k)
                implies r.remaining().contains(k) by {
                let a = choose|a: int| 0 <= a < entries@.len()
                    && (#[trigger] entries@[a]) == (k, self@[k]);
                assert(r.remaining()[a] == k);
            }
        }
        r
    }
}

} // verus!
