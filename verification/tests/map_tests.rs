use axmap::map::HashMap;
use axmap::random::RandomState;

#[test]
fn insert_get_remove_roundtrip() {
    let mut m = HashMap::new();
    assert!(m.is_empty());
    assert_eq!(m.len(), 0);
    assert_eq!(m.insert(1, 10), None);
    assert_eq!(m.insert(2, 20), None);
    assert_eq!(m.insert(3, 30), None);
    assert_eq!(m.len(), 3);
    assert!(!m.is_empty());
    assert_eq!(m.get(1), Some(&10));
    assert_eq!(m.get(2), Some(&20));
    assert_eq!(m.get(3), Some(&30));
    assert_eq!(m.get(4), None);
    assert_eq!(m.remove(2), Some(20));
    assert_eq!(m.remove(2), None);
    assert_eq!(m.len(), 2);
    assert_eq!(m.get(2), None);
}

#[test]
fn insert_replaces_and_keeps_len() {
    let mut m = HashMap::new();
    assert_eq!(m.insert(7, 1), None);
    let before = m.len();
    assert_eq!(m.insert(7, 2), Some(1));
    assert_eq!(m.len(), before);
    assert_eq!(m.get(7), Some(&2));
}

#[test]
fn len_tracks_unique_keys_over_mixed_ops() {
    let mut m = HashMap::new();
    for k in 0..100u64 {
        m.insert(k % 10, k);
    }
    assert_eq!(m.len(), 10);
    for k in 0..10u64 {
        assert_eq!(m.get(k), Some(&(90 + k)));
    }
    for k in 0..5u64 {
        m.remove(k);
    }
    assert_eq!(m.len(), 5);
}

#[test]
fn contains_key_and_get_key_value() {
    let mut m = HashMap::new();
    m.insert(5, 50);
    assert!(m.contains_key(5));
    assert!(!m.contains_key(6));
    assert_eq!(m.get_key_value(5), Some((5, &50)));
    assert_eq!(m.get_key_value(6), None);
}

#[test]
fn get_mut_updates_in_place() {
    let mut m = HashMap::new();
    m.insert(1, 10);
    if let Some(v) = m.get_mut(1) {
        *v = 99;
    } else {
        panic!("key 1 should be present");
    }
    assert_eq!(m.get(1), Some(&99));
    assert!(m.get_mut(2).is_none());
    assert_eq!(m.len(), 1);
}

#[test]
fn get_many_mut_rejects_duplicate_keys() {
    let mut m = HashMap::new();
    m.insert(1, 10);
    m.insert(2, 20);
    assert!(m.get_many_mut(1, 1).is_none());
    assert_eq!(m.get(1), Some(&10));
}

#[test]
fn get_many_mut_rejects_missing_keys() {
    let mut m = HashMap::new();
    m.insert(1, 10);
    assert!(m.get_many_mut(1, 2).is_none());
    assert!(m.get_many_mut(3, 1).is_none());
}

#[test]
fn get_many_mut_gives_independent_references() {
    let mut m = HashMap::new();
    m.insert(1, 10);
    m.insert(2, 20);
    match m.get_many_mut(1, 2) {
        Some((a, b)) => {
            *a = 111;
            *b = 222;
        }
        None => panic!("both keys are present and distinct"),
    }
    assert_eq!(m.get(1), Some(&111));
    assert_eq!(m.get(2), Some(&222));
}

#[test]
fn remove_entry_returns_pair() {
    let mut m = HashMap::new();
    m.insert(8, 80);
    assert_eq!(m.remove_entry(8), Some((8, 80)));
    assert_eq!(m.remove_entry(8), None);
}

#[test]
fn clear_empties_without_touching_others() {
    let mut m = HashMap::new();
    m.insert(1, 1);
    m.insert(2, 2);
    m.clear();
    assert_eq!(m.len(), 0);
    assert!(m.is_empty());
    assert_eq!(m.get(1), None);
    m.insert(3, 3);
    assert_eq!(m.len(), 1);
}

#[test]
fn capacity_hints_preserve_contents() {
    let mut m = HashMap::with_capacity(100);
    assert!(m.capacity() >= 0);
    m.insert(1, 1);
    m.insert(2, 2);
    m.reserve(50);
    assert_eq!(m.len(), 2);
    assert_eq!(m.get(1), Some(&1));
    m.shrink_to_fit();
    assert_eq!(m.len(), 2);
    assert_eq!(m.get(2), Some(&2));
    m.shrink_to(1);
    assert_eq!(m.len(), 2);
    assert!(m.capacity() >= m.len());
}

#[test]
fn index_returns_present_value() {
    let mut m = HashMap::new();
    m.insert(4, 44);
    assert_eq!(*m.index(4), 44);
}

#[test]
fn hasher_returns_the_builder() {
    let b = RandomState::with_keys(17, 18);
    let m = HashMap::with_hasher(b);
    let mut h1 = m.hasher().build();
    let mut h2 = RandomState::with_keys(17, 18).build();
    h1.write(b"probe");
    h2.write(b"probe");
    assert_eq!(h1.finish(), h2.finish());
}

#[test]
fn with_capacity_and_hasher_starts_empty() {
    let m = HashMap::with_capacity_and_hasher(32, RandomState::new());
    assert_eq!(m.len(), 0);
    assert!(m.capacity() >= 0);
}

#[test]
fn equal_maps_built_in_different_orders() {
    let mut a = HashMap::new();
    let mut b = HashMap::new();
    a.insert(1, 10);
    a.insert(2, 20);
    a.insert(3, 30);
    b.insert(3, 30);
    b.insert(1, 10);
    b.insert(2, 20);
    assert!(a == b);
    assert!(b == a);
}

#[test]
fn unequal_maps_detected() {
    let mut a = HashMap::new();
    let mut b = HashMap::new();
    a.insert(1, 10);
    b.insert(1, 10);
    b.insert(2, 20);
    assert!(a != b);
    let mut c = HashMap::new();
    c.insert(1, 11);
    assert!(a != c);
}

#[test]
fn clone_preserves_entries_and_hashing() {
    let mut m = HashMap::new();
    m.insert(1, 10);
    m.insert(2, 20);
    let c = m.clone();
    assert!(m == c);
    assert_eq!(c.get(1), Some(&10));
    assert_eq!(c.get(2), Some(&20));
}

#[test]
fn retain_keeps_exactly_matching_entries() {
    let mut m = HashMap::new();
    for k in 0..20u64 {
        m.insert(k, k * 3);
    }
    m.retain(|k, _v| k % 2 == 0);
    assert_eq!(m.len(), 10);
    for k in 0..20u64 {
        if k % 2 == 0 {
            assert_eq!(m.get(k), Some(&(k * 3)));
        } else {
            assert_eq!(m.get(k), None);
        }
    }
}

#[test]
fn retain_and_extract_if_are_complements() {
    let pred = |_k: u64, v: u64| v > 50;
    let mut kept = HashMap::new();
    let mut drained = HashMap::new();
    for k in 0..20u64 {
        kept.insert(k, k * 7);
        drained.insert(k, k * 7);
    }
    kept.retain(|k, v| !pred(k, v));
    let mut it = drained.extract_if(pred);
    let mut extracted = Vec::new();
    while let Some((k, v)) = it.next(&mut drained) {
        assert!(pred(k, v));
        extracted.push((k, v));
    }
    assert!(kept == drained);
    assert_eq!(extracted.len() + drained.len(), 20);
    for (k, v) in extracted {
        assert_eq!(drained.get(k), None);
        assert_eq!(v, k * 7);
    }
}

#[test]
fn extract_if_visits_every_entry_once() {
    let mut m = HashMap::new();
    for k in 0..10u64 {
        m.insert(k, k);
    }
    let mut it = m.extract_if(|k, _v| k % 3 == 0);
    let mut seen = Vec::new();
    while let Some((k, v)) = it.next(&mut m) {
        assert_eq!(k % 3, 0);
        assert_eq!(v, k);
        assert!(!seen.contains(&k));
        seen.push(k);
    }
    assert_eq!(seen.len(), 4);
    assert_eq!(m.len(), 6);
    for k in 0..10u64 {
        if k % 3 == 0 {
            assert_eq!(m.get(k), None);
        } else {
            assert_eq!(m.get(k), Some(&k));
        }
    }
}

#[test]
fn extract_if_abandoned_early_leaves_rest_untouched() {
    let mut m = HashMap::new();
    for k in 0..10u64 {
        m.insert(k, k + 100);
    }
    let mut it = m.extract_if(|_k, _v| true);
    let first = it.next(&mut m);
    assert!(first.is_some());
    drop(it);
    assert_eq!(m.len(), 9);
    let (gone, _) = first.unwrap();
    for k in 0..10u64 {
        if k == gone {
            assert_eq!(m.get(k), None);
        } else {
            assert_eq!(m.get(k), Some(&(k + 100)));
        }
    }
}

#[test]
fn extract_if_exhaustion_is_terminal() {
    let mut m = HashMap::new();
    m.insert(1, 1);
    let mut it = m.extract_if(|_k, _v| false);
    assert!(it.next(&mut m).is_none());
    assert!(it.next(&mut m).is_none());
    assert_eq!(it.pending(), 0);
    assert_eq!(m.len(), 1);
}

#[test]
fn iterator_len_is_exact_and_falls_by_one() {
    let mut m = HashMap::new();
    for k in 0..5u64 {
        m.insert(k, k * 2);
    }
    let mut it = m.iter();
    assert_eq!(it.len(), m.len());
    let mut expected: usize = 5;
    while let Some((k, v)) = it.next() {
        expected -= 1;
        assert_eq!(it.len(), expected);
        assert_eq!(v, k * 2);
    }
    assert_eq!(it.len(), 0);
    assert!(it.next().is_none());
    assert!(it.next().is_none());
    assert_eq!(it.len(), 0);
}

#[test]
fn iter_yields_each_entry_exactly_once() {
    let mut m = HashMap::new();
    for k in 10..20u64 {
        m.insert(k, k + 1);
    }
    let mut it = m.iter();
    let mut seen = Vec::new();
    while let Some((k, v)) = it.next() {
        assert_eq!(m.get(k), Some(&v));
        assert!(!seen.contains(&k));
        seen.push(k);
    }
    assert_eq!(seen.len(), 10);
}

#[test]
fn iter_clone_is_independent() {
    let mut m = HashMap::new();
    m.insert(1, 1);
    m.insert(2, 2);
    let mut it = m.iter();
    let first = it.next();
    assert!(first.is_some());
    let mut copy = it.clone();
    assert_eq!(copy.len(), it.len());
    assert_eq!(copy.next(), it.next());
}

#[test]
fn keys_and_values_project_entries() {
    let mut m = HashMap::new();
    for k in 0..6u64 {
        m.insert(k, 1000 + k);
    }
    let mut ks = m.keys();
    assert_eq!(ks.len(), 6);
    let mut seen_keys = Vec::new();
    while let Some(k) = ks.next() {
        assert!(m.contains_key(k));
        assert!(!seen_keys.contains(&k));
        seen_keys.push(k);
    }
    assert_eq!(seen_keys.len(), 6);
    assert!(ks.next().is_none());

    let mut vs = m.values();
    assert_eq!(vs.len(), 6);
    let mut seen_vals = Vec::new();
    while let Some(v) = vs.next() {
        assert!((1000..1006).contains(&v));
        seen_vals.push(v);
    }
    seen_vals.sort();
    seen_vals.dedup();
    assert_eq!(seen_vals.len(), 6);
    assert!(vs.next().is_none());
}

#[test]
fn maps_with_different_seeds_agree_on_contents() {
    let mut a = HashMap::with_hasher(RandomState::with_keys(1, 2));
    let mut b = HashMap::with_hasher(RandomState::with_keys(300, 400));
    for k in 0..50u64 {
        a.insert(k, k);
        b.insert(k, k);
    }
    assert!(a == b);
}

#[test]
fn insert_then_reinsert_then_extract_scenario() {
    let mut m = HashMap::new();
    let key_a: u64 = 1;
    let key_b: u64 = 2;
    assert_eq!(m.insert(key_a, 1), None);
    assert_eq!(m.insert(key_b, 2), None);
    assert_eq!(m.insert(key_a, 3), Some(1));
    assert_eq!(m.len(), 2);
    assert_eq!(m.get(key_a), Some(&3));
    assert_eq!(m.get(key_b), Some(&2));
    let mut it = m.extract_if(|_k, v| v > 2);
    let mut yielded = Vec::new();
    while let Some(e) = it.next(&mut m) {
        yielded.push(e);
    }
    assert_eq!(yielded, vec![(key_a, 3)]);
    assert_eq!(m.len(), 1);
    assert_eq!(m.get(key_b), Some(&2));
}

#[test]
fn default_map_is_empty_and_randomized() {
    let mut m = HashMap::default();
    assert!(m.is_empty());
    m.insert(1, 2);
    assert_eq!(m.get(1), Some(&2));
    let other = HashMap::default();
    let mut h1 = m.hasher().build();
    let mut h2 = other.hasher().build();
    h1.write(b"seed probe");
    h2.write(b"seed probe");
    assert_ne!(h1.finish(), h2.finish());
}
