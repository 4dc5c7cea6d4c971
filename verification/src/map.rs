//! The associative container: a conformance layer over an externally
//! supplied open-addressing hash-table engine, parameterized by the
//! randomized SipHash-1-3 hasher-builder.
//!
//! The engine itself (probing, resizing, load factor) is out of scope and
//! is reached only through the trusted wrappers below; everything layered
//! over it is verified against the engine's stated contracts.

use vstd::prelude::*;
use crate::random::RandomState;

verus! {

/// The underlying open-addressing hash-table engine, keyed and valued with
/// 64-bit words and hashing through the randomized builder. Opaque to the
/// verifier; its behavior is captured by `table_contents` / `table_seed`
/// and the wrappers' contracts.
#[verifier::external_body]
pub struct Table {
    inner: hashbrown::HashMap<u64, u64, RandomState>,
}

/// The entries the engine currently holds.
pub uninterp spec fn table_contents(t: Table) -> Map<u64, u64>;

/// The two secret keys of the hasher-builder the engine was created with.
pub uninterp spec fn table_seed(t: Table) -> (u64, u64);

/// Relies on `hashbrown::HashMap::with_hasher`: a new engine is empty and
/// keeps the given hash builder.
#[verifier::external_body]
fn new_table(s: RandomState) -> (t: Table)
    ensures
        table_contents(t) == (Map::<u64, u64>::empty()),
        table_seed(t) == s@,
{
    Table { inner: hashbrown::HashMap::with_hasher(s) }
}

/// Relies on `hashbrown::HashMap::with_capacity_and_hasher`: as
/// `with_hasher`, pre-sizing for at least `capacity` entries.
#[verifier::external_body]
fn new_table_with_capacity(capacity: usize, s: RandomState) -> (t: Table)
    ensures
        table_contents(t) == (Map::<u64, u64>::empty()),
        table_seed(t) == s@,
{
    Table { inner: hashbrown::HashMap::with_capacity_and_hasher(capacity, s) }
}

/// Relies on `hashbrown::HashMap::len`: the number of entries the engine
/// holds.
#[verifier::external_body]
fn raw_len(t: &Table) -> (r: usize)
    ensures
        r == table_contents(*t).dom().len(),
{
    t.inner.len()
}

/// Relies on `hashbrown::HashMap::capacity`: how many entries fit without
/// another resize; never below the current number of entries.
#[verifier::external_body]
fn raw_capacity(t: &Table) -> (r: usize)
    ensures
        r >= table_contents(*t).dom().len(),
{
    t.inner.capacity()
}

/// Relies on `hashbrown::HashMap::insert`: maps `k` to `v`, returning the
/// value `k` was mapped to before, if any.
#[verifier::external_body]
fn raw_insert(t: &mut Table, k: u64, v: u64) -> (r: Option<u64>)
    ensures
        table_contents(*final(t)) == table_contents(*old(t)).insert(k, v),
        r == (if table_contents(*old(t)).dom().contains(k) {
            Some(table_contents(*old(t))[k])
        } else {
            None::<u64>
        }),
        table_seed(*final(t)) == table_seed(*old(t)),
{
    t.inner.insert(k, v)
}

/// Relies on `hashbrown::HashMap::get`: the value `k` is mapped to, if any.
#[verifier::external_body]
fn raw_get<'a>(t: &'a Table, k: u64) -> (r: Option<&'a u64>)
    ensures
        r == (if table_contents(*t).dom().contains(k) {
            Some(&table_contents(*t)[k])
        } else {
            None::<&'a u64>
        }),
{
    t.inner.get(&k)
}

/// Relies on `hashbrown::HashMap::get_mut`: a mutable reference to the
/// value under a present key; writing through it updates that entry and
/// nothing else.
#[verifier::external_body]
fn raw_get_mut<'a>(t: &'a mut Table, k: u64) -> (v: &'a mut u64)
    requires
        table_contents(*old(t)).dom().contains(k),
    ensures
        *v == table_contents(*old(t))[k],
        table_contents(*final(t)) == table_contents(*old(t)).insert(k, *final(v)),
        table_seed(*final(t)) == table_seed(*old(t)),
{
    t.inner.get_mut(&k).unwrap()
}

/// Relies on `hashbrown::HashMap::get_many_mut`: simultaneous mutable
/// references to the values under two distinct present keys; each write
/// lands on its own entry.
#[verifier::external_body]
fn raw_get_pair_mut<'a>(t: &'a mut Table, k1: u64, k2: u64) -> ((a, b): (&'a mut u64, &'a mut u64))
    requires
        k1 != k2,
        table_contents(*old(t)).dom().contains(k1),
        table_contents(*old(t)).dom().contains(k2),
    ensures
        *a == table_contents(*old(t))[k1],
        *b == table_contents(*old(t))[k2],
        table_contents(*final(t))
            == table_contents(*old(t)).insert(k1, *final(a)).insert(k2, *final(b)),
        table_seed(*final(t)) == table_seed(*old(t)),
{
    let [a, b] = t.inner.get_many_mut([&k1, &k2]).unwrap();
    (a, b)
}

/// Relies on `hashbrown::HashMap::remove`: unmaps `k`, returning the value
/// it was mapped to, if any.
#[verifier::external_body]
fn raw_remove(t: &mut Table, k: u64) -> (r: Option<u64>)
    ensures
        table_contents(*final(t)) == table_contents(*old(t)).remove(k),
        r == (if table_contents(*old(t)).dom().contains(k) {
            Some(table_contents(*old(t))[k])
        } else {
            None::<u64>
        }),
        table_seed(*final(t)) == table_seed(*old(t)),
{
    t.inner.remove(&k)
}

/// Relies on `hashbrown::HashMap::clear`: unmaps everything, keeping the
/// allocated capacity and the hash builder.
#[verifier::external_body]
fn raw_clear(t: &mut Table)
    ensures
        table_contents(*final(t)) == (Map::<u64, u64>::empty()),
        table_seed(*final(t)) == table_seed(*old(t)),
{
    t.inner.clear()
}

/// Relies on `hashbrown::HashMap::reserve`: a capacity hint; the entries
/// are untouched.
#[verifier::external_body]
fn raw_reserve(t: &mut Table, additional: usize)
    ensures
        table_contents(*final(t)) == table_contents(*old(t)),
        table_seed(*final(t)) == table_seed(*old(t)),
{
    t.inner.reserve(additional)
}

/// Relies on `hashbrown::HashMap::shrink_to_fit`: a capacity hint; the
/// entries are untouched.
#[verifier::external_body]
fn raw_shrink_to_fit(t: &mut Table)
    ensures
        table_contents(*final(t)) == table_contents(*old(t)),
        table_seed(*final(t)) == table_seed(*old(t)),
{
    t.inner.shrink_to_fit()
}

/// Relies on `hashbrown::HashMap::shrink_to`: a capacity hint; the entries
/// are untouched.
#[verifier::external_body]
fn raw_shrink_to(t: &mut Table, min_capacity: usize)
    ensures
        table_contents(*final(t)) == table_contents(*old(t)),
        table_seed(*final(t)) == table_seed(*old(t)),
{
    t.inner.shrink_to(min_capacity)
}

/// Relies on `hashbrown::HashMap::hasher`: the hash builder the engine was
/// created with.
#[verifier::external_body]
fn raw_hasher<'a>(t: &'a Table) -> (r: &'a RandomState)
    ensures
        r@ == table_seed(*t),
{
    t.inner.hasher()
}

/// Relies on `hashbrown::HashMap::iter`: walking the engine visits every
/// entry exactly once, in no specified order.
#[verifier::external_body]
pub(crate) fn raw_entries(t: &Table) -> (r: Vec<(u64, u64)>)
    ensures
        r@.len() == table_contents(*t).dom().len(),
        forall|i: int, j: int| 0 <= i < j < r@.len() ==> r@[i].0 != r@[j].0,
        forall|i: int| 0 <= i < r@.len()
            ==> table_contents(*t).dom().contains(#[trigger] r@[i].0)
                && table_contents(*t)[r@[i].0] == r@[i].1,
        forall|k: u64| #[trigger] table_contents(*t).dom().contains(k)
            ==> exists|i: int| 0 <= i < r@.len() && (#[trigger] r@[i]) == (k, table_contents(*t)[k]),
{
    t.inner.iter().map(|(k, v)| (*k, *v)).collect()
}

/// Relies on `hashbrown::HashMap::clone`: the clone holds the same entries
/// and a clone of the hash builder, which shares the same keys.
#[verifier::external_body]
fn clone_table(t: &Table) -> (r: Table)
    ensures
        table_contents(r) == table_contents(*t),
        table_seed(r) == table_seed(*t),
{
    Table { inner: t.inner.clone() }
}

/// The associative container: unique 64-bit keys mapped to 64-bit values,
/// hashed through a per-instance randomized SipHash-1-3 builder.
pub struct HashMap {
    table: Table,
}

/// The current entries of `m`, one pair per key, in no specified order.
pub(crate) fn raw_entries_of(m: &HashMap) -> (r: Vec<(u64, u64)>)
    ensures
        r@.len() == m@.dom().len(),
        forall|i: int, j: int| 0 <= i < j < r@.len() ==> r@[i].0 != r@[j].0,
        forall|i: int| 0 <= i < r@.len()
            ==> m@.dom().contains(#[trigger] r@[i].0) && m@[r@[i].0] == r@[i].1,
        forall|k: u64| #[trigger] m@.dom().contains(k)
            ==> exists|i: int| 0 <= i < r@.len() && (#[trigger] r@[i]) == (k, m@[k]),
{
    raw_entries(&m.table)
}

impl View for HashMap {
    type V = Map<u64, u64>;

    closed spec fn view(&self) -> Map<u64, u64> {
        table_contents(self.table)
    }
}

impl HashMap {
    /// The two secret keys this container hashes with.
    pub closed spec fn seed(self) -> (u64, u64) {
        table_seed(self.table)
    }

    /// An empty container with a freshly randomized hasher-builder.
    pub fn new() -> (r: HashMap)
        ensures
            r@ == (Map::<u64, u64>::empty()),
    {
        Self::with_hasher(RandomState::new())
    }

    /// An empty container with a freshly randomized hasher-builder,
    /// pre-sized for at least `capacity` entries.
    pub fn with_capacity(capacity: usize) -> (r: HashMap)
        ensures
            r@ == (Map::<u64, u64>::empty()),
    {
        Self::with_capacity_and_hasher(capacity, RandomState::new())
    }

    /// An empty container hashing through the given builder.
    pub fn with_hasher(hash_builder: RandomState) -> (r: HashMap)
        ensures
            r@ == (Map::<u64, u64>::empty()),
            r.seed() == hash_builder@,
    {
        HashMap { table: new_table(hash_builder) }
    }

    /// An empty container hashing through the given builder, pre-sized for
    /// at least `capacity` entries.
    pub fn with_capacity_and_hasher(capacity: usize, hasher: RandomState) -> (r: HashMap)
        ensures
            r@ == (Map::<u64, u64>::empty()),
            r.seed() == hasher@,
    {
        HashMap { table: new_table_with_capacity(capacity, hasher) }
    }

    /// How many entries fit without another resize; at least `len()`.
    pub fn capacity(&self) -> (r: usize)
        ensures
            r >= self@.dom().len(),
    {
        raw_capacity(&self.table)
    }

    /// The number of entries: exactly the number of currently-present
    /// unique keys.
    pub fn len(&self) -> (r: usize)
        ensures
            r == self@.dom().len(),
    {
        raw_len(&self.table)
    }

    /// Whether the container holds no entries.
    pub fn is_empty(&self) -> (r: bool)
        ensures
            r == (self@.dom().len() == 0),
    {
        self.len() == 0
    }

    /// The hasher-builder this container hashes with.
    pub fn hasher(&self) -> (r: &RandomState)
        ensures
            r@ == self.seed(),
    {
        raw_hasher(&self.table)
    }

    /// Map `k` to `v`. If `k` was already present its value is replaced and
    /// the prior value returned; otherwise a new entry is created and
    /// nothing is returned.
    pub fn insert(&mut self, k: u64, v: u64) -> (r: Option<u64>)
        ensures
            final(self)@ == old(self)@.insert(k, v),
            r == (if old(self)@.dom().contains(k) {
                Some(old(self)@[k])
            } else {
                None::<u64>
            }),
            final(self).seed() == old(self).seed(),
    {
        raw_insert(&mut self.table, k, v)
    }

    /// The value `k` is mapped to: the most recently inserted value for
    /// `k`, or nothing if `k` is absent or was removed.
    pub fn get(&self, k: u64) -> (r: Option<&u64>)
        ensures
            r == (if self@.dom().contains(k) {
                Some(&self@[k])
            } else {
                None::<&u64>
            }),
    {
        raw_get(&self.table, k)
    }

    /// The key together with the value it is mapped to, if present.
    pub fn get_key_value(&self, k: u64) -> (r: Option<(u64, &u64)>)
        ensures
            r == (if self@.dom().contains(k) {
                Some((k, &self@[k]))
            } else {
                None::<(u64, &u64)>
            }),
    {
        match raw_get(&self.table, k) {
            Some(v) => Some((k, v)),
            None => None,
        }
    }

    /// Whether `k` is present.
    pub fn contains_key(&self, k: u64) -> (r: bool)
        ensures
            r == self@.dom().contains(k),
    {
        match raw_get(&self.table, k) {
            Some(_) => true,
            None => false,
        }
    }

    /// A mutable reference to the value under `k`, if present; writing
    /// through it updates that entry in place and nothing else.
    pub fn get_mut(&mut self, k: u64) -> (r: Option<&mut u64>)
        ensures
            r is Some <==> old(self)@.dom().contains(k),
            r matches Some(v) ==> {
                &&& *v == old(self)@[k]
                &&& final(self)@ == old(self)@.insert(k, *final(v))
            },
            r is None ==> final(self)@ == old(self)@,
            final(self).seed() == old(self).seed(),
    {
        if self.contains_key(k) {
            Some(raw_get_mut(&mut self.table, k))
        } else {
            None
        }
    }

    /// Simultaneous mutable references to the values under two keys.
    /// Returns references only when the keys are distinct and both
    /// present; equal keys are refused rather than handing out aliased
    /// mutable access. Each write lands only on its own entry.
    pub fn get_many_mut(&mut self, k1: u64, k2: u64) -> (r: Option<(&mut u64, &mut u64)>)
        ensures
            r is Some <==> (k1 != k2 && old(self)@.dom().contains(k1)
                && old(self)@.dom().contains(k2)),
            r matches Some(p) ==> {
                &&& *p.0 == old(self)@[k1]
                &&& *p.1 == old(self)@[k2]
                &&& final(self)@ == old(self)@.insert(k1, *final(p.0)).insert(k2, *final(p.1))
            },
            r is None ==> final(self)@ == old(self)@,
            final(self).seed() == old(self).seed(),
    {
        if k1 == k2 {
            return None;
        }
        if !self.contains_key(k1) || !self.contains_key(k2) {
            return None;
        }
        let (a, b) = raw_get_pair_mut(&mut self.table, k1, k2);
        Some((a, b))
    }

    /// Unmap `k`, returning the value it was mapped to, if any.
    pub fn remove(&mut self, k: u64) -> (r: Option<u64>)
        ensures
            final(self)@ == old(self)@.remove(k),
            r == (if old(self)@.dom().contains(k) {
                Some(old(self)@[k])
            } else {
                None::<u64>
            }),
            final(self).seed() == old(self).seed(),
    {
        raw_remove(&mut self.table, k)
    }

    /// Unmap `k`, returning the key together with its value, if present.
    pub fn remove_entry(&mut self, k: u64) -> (r: Option<(u64, u64)>)
        ensures
            final(self)@ == old(self)@.remove(k),
            r == (if old(self)@.dom().contains(k) {
                Some((k, old(self)@[k]))
            } else {
                None::<(u64, u64)>
            }),
            final(self).seed() == old(self).seed(),
    {
        match raw_remove(&mut self.table, k) {
            Some(v) => Some((k, v)),
            None => None,
        }
    }

    /// Remove all entries; the allocated capacity and the hash keys stay.
    pub fn clear(&mut self)
        ensures
            final(self)@ == (Map::<u64, u64>::empty()),
            final(self).seed() == old(self).seed(),
    {
        raw_clear(&mut self.table)
    }

    /// A capacity hint: room for at least `additional` more entries. The
    /// entries are untouched.
    pub fn reserve(&mut self, additional: usize)
        ensures
            final(self)@ == old(self)@,
            final(self).seed() == old(self).seed(),
    {
        raw_reserve(&mut self.table, additional)
    }

    /// A capacity hint: drop spare capacity. The entries are untouched.
    pub fn shrink_to_fit(&mut self)
        ensures
            final(self)@ == old(self)@,
            final(self).seed() == old(self).seed(),
    {
        raw_shrink_to_fit(&mut self.table)
    }

    /// A capacity hint: drop spare capacity down to `min_capacity`. The
    /// entries are untouched.
    pub fn shrink_to(&mut self, min_capacity: usize)
        ensures
            final(self)@ == old(self)@,
            final(self).seed() == old(self).seed(),
    {
        raw_shrink_to(&mut self.table, min_capacity)
    }

    /// Direct access to the value under a key the caller asserts present;
    /// the fatal-on-absence indexing accessor.
    pub fn index(&self, k: u64) -> (r: &u64)
        requires
            self@.dom().contains(k),
        ensures
            *r == self@[k],
    {
        match raw_get(&self.table, k) {
            Some(v) => v,
            None => vstd::pervasive::unreached(),
        }
    }
}

impl HashMap {
    /// Visit every entry and keep exactly those the predicate accepts:
    /// afterwards every remaining entry satisfied the predicate with its
    /// (unchanged) value, and every dropped entry failed it.
    pub fn retain<F: Fn(u64, u64) -> bool>(&mut self, f: F)
        requires
            forall|k: u64, v: u64| #[trigger] call_requires(f, (k, v)),
        ensures
            forall|k: u64| #[trigger] final(self)@.dom().contains(k) ==> {
                &&& old(self)@.dom().contains(k)
                &&& final(self)@[k] == old(self)@[k]
                &&& call_ensures(f, (k, old(self)@[k]), true)
            },
            forall|k: u64| old(self)@.dom().contains(k)
                && !(#[trigger] final(self)@.dom().contains(k))
                ==> call_ensures(f, (k, old(self)@[k]), false),
            forall|k: u64| !old(self)@.dom().contains(k)
                ==> !(#[trigger] final(self)@.dom().contains(k)),
            final(self).seed() == old(self).seed(),
    {
        let entries = raw_entries_of(self);
        let ghost m0 = self@;
        let ghost s0 = self.seed();
        let mut i: usize = 0;
        while i < entries.len()
            invariant
                i <= entries.len(),
                forall|k: u64, v: u64| #[trigger] call_requires(f, (k, v)),
                forall|a: int, b: int| 0 <= a < b < entries@.len()
                    ==> entries@[a].0 != entries@[b].0,
                forall|a: int| 0 <= a < entries@.len()
                    ==> m0.dom().contains(#[trigger] entries@[a].0)
                        && m0[entries@[a].0] == entries@[a].1,
                forall|k: u64| #[trigger] m0.dom().contains(k)
                    ==> exists|a: int| 0 <= a < entries@.len()
                        && (#[trigger] entries@[a]) == (k, m0[k]),
                forall|k: u64| #[trigger] self@.dom().contains(k)
                    ==> m0.dom().contains(k) && self@[k] == m0[k],
                forall|k: u64| !m0.dom().contains(k)
                    ==> !(#[trigger] self@.dom().contains(k)),
                forall|a: int| i <= a < entries@.len()
                    ==> self@.dom().contains(#[trigger] entries@[a].0),
                forall|a: int| 0 <= a < i
                    ==> (self@.dom().contains(#[trigger] entries@[a].0)
                        ==> call_ensures(f, (entries@[a].0, entries@[a].1), true)),
                forall|a: int| 0 <= a < i
                    ==> (!self@.dom().contains(#[trigger] entries@[a].0)
                        ==> call_ensures(f, (entries@[a].0, entries@[a].1), false)),
                self.seed() == s0,
            decreases entries.len() - i,
        {
            let (k, v) = entries[i];
            let keep = f(k, v);
            if !keep {
                self.remove(k);
            }
            i = i + 1;
        }
        proof {
            assert forall|k: u64| #[trigger] self@.dom().contains(k) implies {
                &&& m0.dom().contains(k)
                &&& self@[k] == m0[k]
                &&& call_ensures(f, (k, m0[k]), true)
            } by {
                let a = choose|a: int| 0 <= a < entries@.len()
                    && (#[trigger] entries@[a]) == (k, m0[k]);
                assert(self@.dom().contains(entries@[a].0));
            }
            assert forall|k: u64| m0.dom().contains(k)
                && !(#[trigger] self@.dom().contains(k))
                implies call_ensures(f, (k, m0[k]), false) by {
                let a = choose|a: int| 0 <= a < entries@.len()
                    && (#[trigger] entries@[a]) == (k, m0[k]);
                assert(!self@.dom().contains(entries@[a].0));
            }
        }
    }
}

impl Clone for HashMap {
    /// The clone holds the same entries and hashes with the same keys.
    fn clone(&self) -> (r: Self)
        ensures
            r@ == self@,
            r.seed() == self.seed(),
    {
        HashMap { table: clone_table(&self.table) }
    }
}

impl PartialEq for HashMap {
    /// Two containers are equal exactly when they hold the same keys and
    /// each key maps to the same value in both, regardless of insertion
    /// order or hash seeds.
    fn eq(&self, other: &HashMap) -> (r: bool) {
        if self.len() != other.len() {
            proof {
                if self@ == other@ {
                    assert(self@.dom() == other@.dom());
                }
            }
            return false;
        }
        let entries = raw_entries_of(self);
        let mut i: usize = 0;
        while i < entries.len()
            invariant
                i <= entries.len(),
                forall|a: int| 0 <= a < entries@.len()
                    ==> self@.dom().contains(#[trigger] entries@[a].0)
                        && self@[entries@[a].0] == entries@[a].1,
                forall|k: u64| #[trigger] self@.dom().contains(k)
                    ==> exists|a: int| 0 <= a < entries@.len()
                        && (#[trigger] entries@[a]) == (k, self@[k]),
                forall|a: int| 0 <= a < i
                    ==> other@.dom().contains(#[trigger] entries@[a].0)
                        && other@[entries@[a].0] == entries@[a].1,
            decreases entries.len() - i,
        {
            let (k, v) = entries[i];
            match other.get(k) {
                Some(w) => {
                    if *w != v {
                        proof {
                            assert(self@[k] != other@[k]);
                        }
                        return false;
                    }
                }
                None => {
                    return false;
                }
            }
            i = i + 1;
        }
        let back = raw_entries_of(other);
        let mut j: usize = 0;
        while j < back.len()
            invariant
                j <= back.len(),
                forall|a: int| 0 <= a < back@.len()
                    ==> other@.dom().contains(#[trigger] back@[a].0),
                forall|k: u64| #[trigger] other@.dom().contains(k)
                    ==> exists|a: int| 0 <= a < back@.len()
                        && (#[trigger] back@[a]) == (k, other@[k]),
                forall|a: int| 0 <= a < entries@.len()
                    ==> other@.dom().contains(#[trigger] entries@[a].0)
                        && other@[entries@[a].0] == entries@[a].1,
                forall|k: u64| #[trigger] self@.dom().contains(k)
                    ==> exists|a: int| 0 <= a < entries@.len()
                        && (#[trigger] entries@[a]) == (k, self@[k]),
                forall|a: int| 0 <= a < entries@.len()
                    ==> self@.dom().contains(#[trigger] entries@[a].0)
                        && self@[entries@[a].0] == entries@[a].1,
                forall|a: int| 0 <= a < j
                    ==> self@.dom().contains(#[trigger] back@[a].0),
            decreases back.len() - j,
        {
            let (k, _v) = back[j];
            if !self.contains_key(k) {
                return false;
            }
            j = j + 1;
        }
        proof {
            assert forall|k: u64| #[trigger] self@.dom().contains(k)
                implies other@.dom().contains(k) && other@[k] == self@[k] by {
                let a = choose|a: int| 0 <= a < entries@.len()
                    && (#[trigger] entries@[a]) == (k, self@[k]);
                assert(other@.dom().contains(entries@[a].0));
            }
            assert forall|k: u64| #[trigger] other@.dom().contains(k)
                implies self@.dom().contains(k) by {
                let a = choose|a: int| 0 <= a < back@.len()
                    && (#[trigger] back@[a]) == (k, other@[k]);
                assert(self@.dom().contains(back@[a].0));
            }
            assert(self@ =~= other@);
        }
        true
    }
}

impl vstd::std_specs::cmp::PartialEqSpecImpl for HashMap {
    open spec fn obeys_eq_spec() -> bool {
        true
    }

    open spec fn eq_spec(&self, other: &HashMap) -> bool {
        self@ == other@
    }
}

impl Eq for HashMap {

}

impl Default for HashMap {
    /// Equivalent to `HashMap::new`: empty, with a freshly randomized
    /// hasher-builder.
    fn default() -> (r: HashMap)
        ensures
            r@ == (Map::<u64, u64>::empty()),
    {
        HashMap::new()
    }
}

} // verus!
