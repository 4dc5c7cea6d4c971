//! Laws the container's contracts guarantee, stated once over the
//! mathematical map model that every method's contract speaks of.

use vstd::prelude::*;

verus! {

/// Map correctness: inserting maps exactly the given key to the given
/// value, leaving every other key alone, and a lookup after a removal
/// finds nothing; the most recent insertion for a key wins.
pub proof fn lemma_insert_remove_get(m: Map<u64, u64>, k: u64, v: u64, w: u64)
    ensures
        m.insert(k, v)[k] == v,
        forall|k2: u64| k2 != k ==> #[trigger] m.insert(k, v).dom().contains(k2)
            == m.dom().contains(k2),
        forall|k2: u64| k2 != k && m.dom().contains(k2)
            ==> #[trigger] m.insert(k, v)[k2] == m[k2],
        m.insert(k, v).insert(k, w) == m.insert(k, w),
        !m.remove(k).dom().contains(k),
        forall|k2: u64| k2 != k ==> #[trigger] m.remove(k).dom().contains(k2)
            == m.dom().contains(k2),
{
    assert(m.insert(k, v).insert(k, w) =~= m.insert(k, w));
}

/// Inserting an already-present key replaces its value and leaves the
/// number of entries unchanged.
pub proof fn lemma_insert_replaces_len(m: Map<u64, u64>, k: u64, v: u64)
    requires
        m.dom().finite(),
        m.dom().contains(k),
    ensures
        m.insert(k, v).dom().len() == m.dom().len(),
        m.insert(k, v)[k] == v,
{
    assert(m.insert(k, v).dom() =~= m.dom());
}

/// Inserting an absent key grows the number of entries by exactly one.
pub proof fn lemma_insert_new_len(m: Map<u64, u64>, k: u64, v: u64)
    requires
        m.dom().finite(),
        !m.dom().contains(k),
    ensures
        m.insert(k, v).dom().len() == m.dom().len() + 1,
{
    assert(m.insert(k, v).dom() =~= m.dom().insert(k));
}

/// Removing a present key shrinks the number of entries by exactly one;
/// removing an absent key changes nothing.
pub proof fn lemma_remove_len(m: Map<u64, u64>, k: u64)
    requires
        m.dom().finite(),
    ensures
        m.dom().contains(k) ==> m.remove(k).dom().len() == m.dom().len() - 1,
        !m.dom().contains(k) ==> m.remove(k) == m,
{
    assert(m.remove(k).dom() =~= m.dom().remove(k));
    if !m.dom().contains(k) {
        assert(m.remove(k) =~= m);
    }
}

/// Insertion order does not matter for distinct keys: two containers
/// built from the same (key, value) set in different orders hold the same
/// map, so they compare equal.
pub proof fn lemma_insert_commutes(m: Map<u64, u64>, k1: u64, v1: u64, k2: u64, v2: u64)
    requires
        k1 != k2,
    ensures
        m.insert(k1, v1).insert(k2, v2) == m.insert(k2, v2).insert(k1, v1),
{
    assert(m.insert(k1, v1).insert(k2, v2) =~= m.insert(k2, v2).insert(k1, v1));
}

/// Retain and extraction are logical complements over one predicate: the
/// keys whose entries satisfy it and the keys whose entries fail it are
/// disjoint and together exhaust the map.
pub proof fn lemma_partition(m: Map<u64, u64>, p: spec_fn(u64, u64) -> bool)
    ensures
        ({
            let kept = m.dom().filter(|k: u64| p(k, m[k]));
            let dropped = m.dom().filter(|k: u64| !p(k, m[k]));
            &&& kept.disjoint(dropped)
            &&& kept.union(dropped) == m.dom()
            &&& forall|k: u64| #[trigger] kept.contains(k)
                <==> m.dom().contains(k) && p(k, m[k])
            &&& forall|k: u64| #[trigger] dropped.contains(k)
                <==> m.dom().contains(k) && !p(k, m[k])
        }),
{
    let kept = m.dom().filter(|k: u64| p(k, m[k]));
    let dropped = m.dom().filter(|k: u64| !p(k, m[k]));
    assert(kept.union(dropped) =~= m.dom());
}

} // verus!
