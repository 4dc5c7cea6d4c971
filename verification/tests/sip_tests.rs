use axmap::sip::DefaultHasher;
use axmap::random::RandomState;

#[test]
fn digest_is_deterministic_for_equal_keys() {
    let mut h1 = DefaultHasher::new_with_keys(7, 11);
    let mut h2 = DefaultHasher::new_with_keys(7, 11);
    h1.write(b"the quick brown fox");
    h2.write(b"the quick brown fox");
    assert_eq!(h1.finish(), h2.finish());
}

#[test]
fn finish_is_idempotent() {
    let mut h = DefaultHasher::new_with_keys(1, 2);
    h.write(b"abc");
    let d1 = h.finish();
    let d2 = h.finish();
    let d3 = h.finish();
    assert_eq!(d1, d2);
    assert_eq!(d2, d3);
    h.write(b"d");
    let d4 = h.finish();
    assert_ne!(d1, d4);
    assert_eq!(d4, h.finish());
}

#[test]
fn streaming_matches_one_shot() {
    let mut split = DefaultHasher::new_with_keys(3, 9);
    split.write(b"hello ");
    split.write(b"world, this is longer than one word");
    let mut whole = DefaultHasher::new_with_keys(3, 9);
    whole.write(b"hello world, this is longer than one word");
    assert_eq!(split.finish(), whole.finish());
}

#[test]
fn different_keys_diverge() {
    let mut h1 = DefaultHasher::new_with_keys(0, 0);
    let mut h2 = DefaultHasher::new_with_keys(0, 1);
    h1.write(b"same input");
    h2.write(b"same input");
    assert_ne!(h1.finish(), h2.finish());
}

#[test]
fn different_inputs_diverge() {
    let mut h1 = DefaultHasher::new_with_keys(5, 6);
    let mut h2 = DefaultHasher::new_with_keys(5, 6);
    h1.write(b"input one");
    h2.write(b"input two");
    assert_ne!(h1.finish(), h2.finish());
}

#[test]
fn input_order_matters() {
    let mut h1 = DefaultHasher::new_with_keys(5, 6);
    let mut h2 = DefaultHasher::new_with_keys(5, 6);
    h1.write(b"ab");
    h2.write(b"ba");
    assert_ne!(h1.finish(), h2.finish());
}

#[test]
fn new_and_default_share_zero_keys() {
    let mut a = DefaultHasher::new();
    let mut b = DefaultHasher::default();
    a.write(b"xyz");
    b.write(b"xyz");
    assert_eq!(a.finish(), b.finish());
}

#[test]
fn empty_input_digest_is_stable() {
    let h1 = DefaultHasher::new_with_keys(42, 43);
    let h2 = DefaultHasher::new_with_keys(42, 43);
    assert_eq!(h1.finish(), h2.finish());
}

#[test]
fn builder_derived_hashers_agree() {
    let b = RandomState::new();
    let mut h1 = b.build();
    let mut h2 = b.build();
    h1.write(b"key material");
    h2.write(b"key material");
    assert_eq!(h1.finish(), h2.finish());
}

#[test]
fn fixed_key_builders_agree_across_instances() {
    let b1 = RandomState::with_keys(100, 200);
    let b2 = RandomState::with_keys(100, 200);
    let mut h1 = b1.build();
    let mut h2 = b2.build();
    h1.write(b"stable");
    h2.write(b"stable");
    assert_eq!(h1.finish(), h2.finish());
}

#[test]
fn fresh_builders_randomize() {
    let b1 = RandomState::new();
    let b2 = RandomState::new();
    let mut h1 = b1.build();
    let mut h2 = b2.build();
    h1.write(b"same key");
    h2.write(b"same key");
    assert_ne!(h1.finish(), h2.finish());
}

#[test]
fn fresh_builders_rarely_collide_over_many_trials() {
    let mut digests = Vec::new();
    for _ in 0..32 {
        let b = RandomState::new();
        let mut h = b.build();
        h.write(b"collision probe");
        digests.push(h.finish());
    }
    for i in 0..digests.len() {
        for j in (i + 1)..digests.len() {
            assert_ne!(digests[i], digests[j]);
        }
    }
}

#[test]
fn cloned_builder_shares_hash_behavior() {
    let b1 = RandomState::new();
    let b2 = b1.clone();
    let mut h1 = b1.build();
    let mut h2 = b2.build();
    h1.write(b"clone check");
    h2.write(b"clone check");
    assert_eq!(h1.finish(), h2.finish());
}

#[test]
fn long_input_crosses_many_words() {
    let data: Vec<u8> = (0u16..1000).map(|i| (i % 251) as u8).collect();
    let mut h1 = DefaultHasher::new_with_keys(9, 9);
    let mut h2 = DefaultHasher::new_with_keys(9, 9);
    h1.write(&data);
    for b in &data {
        h2.write(core::slice::from_ref(b));
    }
    assert_eq!(h1.finish(), h2.finish());
}
