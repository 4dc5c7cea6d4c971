//! The randomized hasher-builder: draws two secret 64-bit keys from the
//! host's entropy once, at construction, and hands out SipHash-1-3 hashers
//! keyed with them for the lifetime of the builder.

use vstd::prelude::*;
use crate::sip::DefaultHasher;
use core::hash::Hasher;

verus! {

/// A hasher-builder holding two secret 64-bit keys, fixed for its whole
/// lifetime. Every hasher it builds is keyed identically, so one container
/// hashes consistently, while an adversary who cannot observe the keys
/// cannot predict any hash. The keys are not exposed; only the hashing
/// behavior is observable.
pub struct RandomState {
    k0: u64,
    k1: u64,
}

impl Clone for RandomState {
    /// The clone carries the same secret keys: clones share hash behavior
    /// rather than randomizing independently.
    fn clone(&self) -> (r: Self)
        ensures
            r@ == self@,
    {
        RandomState { k0: self.k0, k1: self.k1 }
    }
}

/// Relies on `std::hash::RandomState::new`: each call produces a builder
/// seeded from the host's random source (with a per-thread counter), used
/// here purely as a source of unpredictable bits. Nothing is promised of
/// the value.
#[verifier::external_body]
fn host_entropy_state() -> std::hash::RandomState {
    std::hash::RandomState::new()
}

/// Relies on `std::hash::RandomState::build_hasher`: the hasher it returns
/// is keyed with the builder's random keys, so its digest is unpredictable.
/// Nothing is promised of the value.
#[verifier::external_body]
fn host_entropy_hasher(s: &std::hash::RandomState) -> std::collections::hash_map::DefaultHasher {
    std::hash::BuildHasher::build_hasher(s)
}

/// One unpredictable 64-bit value from the host environment.
fn entropy_u64() -> u64 {
    let s = host_entropy_state();
    let h = host_entropy_hasher(&s);
    h.finish()
}

impl View for RandomState {
    type V = (u64, u64);

    closed spec fn view(&self) -> (u64, u64) {
        (self.k0, self.k1)
    }
}

impl RandomState {
    /// Draw one wide random value from the host environment and split it
    /// into the two hash keys. Each call randomizes afresh.
    pub fn new() -> (r: RandomState)
    {
        let k0 = entropy_u64();
        let k1 = entropy_u64();
        RandomState { k0, k1 }
    }

    /// A builder with the two keys given explicitly, for callers that need
    /// reproducible hashing.
    pub fn with_keys(k0: u64, k1: u64) -> (r: RandomState)
        ensures
            r@ == (k0, k1),
    {
        RandomState { k0, k1 }
    }

    /// A fresh keyed hash function seeded with the stored keys. The builder
    /// is unchanged, and every call returns the same initial hasher state.
    pub fn build(&self) -> (r: DefaultHasher)
        ensures
            r == DefaultHasher::spec_init(self@.0, self@.1),
    {
        DefaultHasher::new_with_keys(self.k0, self.k1)
    }
}

impl core::hash::Hasher for DefaultHasher {
    fn write(&mut self, msg: &[u8]) {
        DefaultHasher::write(self, msg)
    }

    fn finish(&self) -> u64 {
        DefaultHasher::finish(self)
    }
}

impl core::hash::BuildHasher for RandomState {
    type Hasher = DefaultHasher;

    fn build_hasher(&self) -> DefaultHasher {
        self.build()
    }
}

impl Default for RandomState {
    /// Equivalent to `RandomState::new`: always randomizes; there is no
    /// fixed-key default.
    fn default() -> RandomState {
        RandomState::new()
    }
}

} // verus!
