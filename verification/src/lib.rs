//! A hash-flooding-resistant associative container: a per-instance
//! randomized SipHash-1-3 hashing policy layered over an open-addressing
//! hash-table engine, with an exact-sized, fused iterator family.

pub mod extract;
pub mod iter;
pub mod laws;
pub mod map;
pub mod random;
pub mod sip;
