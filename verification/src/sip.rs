//! A streaming SipHash-1-3 keyed hash function: one compression round per
//! 64-bit message word and three finalization rounds.
//!
//! The hasher absorbs bytes one word at a time, buffering a partial word in
//! `tail`, and can report the digest of everything absorbed so far at any
//! point without consuming further input.

use vstd::prelude::*;
use vstd::wrapping::u64_specs;

verus! {

/// The streaming state of a SipHash-1-3 computation: four 64-bit lanes, a
/// partial message word, and the running input length.
#[derive(Clone, Copy, Debug)]
pub struct DefaultHasher {
    v0: u64,
    v1: u64,
    v2: u64,
    v3: u64,
    /// Buffered bytes of the current partial word, packed little-endian in
    /// the low `8 * ntail` bits.
    tail: u64,
    /// How many bytes of `tail` are occupied; always below eight.
    ntail: u64,
    /// Total bytes absorbed, modulo 2^64.
    length: u64,
}

/// Shifting zero right by any amount leaves zero.
proof fn lemma_zero_tail(nt: u64)
    ensures
        0u64 >> (8 * nt) == 0,
{
    assert(0u64 >> (8 * nt) == 0) by (bit_vector);
}

/// Packing one more byte above a clean partial word keeps the word clean
/// above its new occupancy.
proof fn lemma_tail_step(tl: u64, nt: u64, b: u8)
    requires
        nt < 7,
        tl >> (8 * nt) == 0,
    ensures
        (tl | ((b as u64) << (8 * nt))) >> (8 * (nt + 1)) == 0,
{
    assert((tl | ((b as u64) << (8 * nt))) >> (8 * (nt + 1)) == 0) by (bit_vector)
        requires
            nt < 7,
            tl >> (8 * nt) == 0,
    ;
}

impl DefaultHasher {
    #[verifier::type_invariant]
    spec fn well_formed(self) -> bool {
        &&& self.ntail < 8
        &&& self.tail >> (8 * self.ntail) == 0
    }

    /// The lane state reached by keying a fresh hasher with `k0` and `k1`.
    pub closed spec fn spec_init(k0: u64, k1: u64) -> DefaultHasher {
        DefaultHasher {
            v0: k0 ^ 0x736f6d6570736575,
            v1: k1 ^ 0x646f72616e646f6d,
            v2: k0 ^ 0x6c7967656e657261,
            v3: k1 ^ 0x7465646279746573,
            tail: 0,
            ntail: 0,
            length: 0,
        }
    }

    /// One SipHash mixing round over the four lanes.
    pub closed spec fn spec_round(h: DefaultHasher) -> DefaultHasher {
        let a0 = u64_specs::wrapping_add(h.v0, h.v1);
        let a1 = spec_rotl(h.v1, 13) ^ a0;
        let a0r = spec_rotl(a0, 32);
        let a2 = u64_specs::wrapping_add(h.v2, h.v3);
        let a3 = spec_rotl(h.v3, 16) ^ a2;
        let b0 = u64_specs::wrapping_add(a0r, a3);
        let b3 = spec_rotl(a3, 21) ^ b0;
        let b2 = u64_specs::wrapping_add(a2, a1);
        let b1 = spec_rotl(a1, 17) ^ b2;
        let b2r = spec_rotl(b2, 32);
        DefaultHasher { v0: b0, v1: b1, v2: b2r, v3: b3, ..h }
    }

    /// Absorbing one complete message word: one compression round framed by
    /// the two whitening xors.
    pub closed spec fn spec_absorb(h: DefaultHasher, word: u64) -> DefaultHasher {
        let m = Self::spec_round(DefaultHasher { v3: h.v3 ^ word, ..h });
        DefaultHasher { v0: m.v0 ^ word, ..m }
    }

    /// The state after absorbing one further input byte.
    pub closed spec fn spec_write_byte(h: DefaultHasher, b: u8) -> DefaultHasher {
        let t = h.tail | ((b as u64) << (8 * h.ntail));
        let len2 = u64_specs::wrapping_add(h.length, 1);
        if h.ntail == 7 {
            let m = Self::spec_absorb(h, t);
            DefaultHasher { tail: 0, ntail: 0, length: len2, ..m }
        } else {
            DefaultHasher { tail: t, ntail: (h.ntail + 1) as u64, length: len2, ..h }
        }
    }

    /// The state after absorbing a byte sequence, front to back.
    pub closed spec fn spec_write(h: DefaultHasher, data: Seq<u8>) -> DefaultHasher
        decreases data.len(),
    {
        if data.len() == 0 {
            h
        } else {
            Self::spec_write(Self::spec_write_byte(h, data[0]), data.skip(1))
        }
    }

    /// The digest of the current state: the length byte and the pending
    /// partial word are folded in, then three finalization rounds run.
    pub closed spec fn spec_finish(h: DefaultHasher) -> u64 {
        let b = ((h.length & 0xff) << 56) | h.tail;
        let m = Self::spec_round(DefaultHasher { v3: h.v3 ^ b, ..h });
        let f0 = DefaultHasher { v0: m.v0 ^ b, v2: m.v2 ^ 0xff, ..m };
        let f = Self::spec_round(Self::spec_round(Self::spec_round(f0)));
        f.v0 ^ f.v1 ^ f.v2 ^ f.v3
    }

    /// A fresh hasher keyed with both keys zero.
    pub fn new() -> (r: DefaultHasher)
        ensures
            r == Self::spec_init(0, 0),
    {
        Self::new_with_keys(0, 0)
    }

    /// A fresh hasher keyed with `k0` and `k1`.
    pub fn new_with_keys(k0: u64, k1: u64) -> (r: DefaultHasher)
        ensures
            r == Self::spec_init(k0, k1),
    {
        proof {
            lemma_zero_tail(0);
        }
        DefaultHasher {
            v0: k0 ^ 0x736f6d6570736575,
            v1: k1 ^ 0x646f72616e646f6d,
            v2: k0 ^ 0x6c7967656e657261,
            v3: k1 ^ 0x7465646279746573,
            tail: 0,
            ntail: 0,
            length: 0,
        }
    }

    fn round(&mut self)
        ensures
            *final(self) == Self::spec_round(*old(self)),
    {
        proof {
            use_type_invariant(&*self);
        }
        let prev = *self;
        let a0 = prev.v0.wrapping_add(prev.v1);
        let a1 = rotl(prev.v1, 13) ^ a0;
        let a0r = rotl(a0, 32);
        let a2 = prev.v2.wrapping_add(prev.v3);
        let a3 = rotl(prev.v3, 16) ^ a2;
        let b0 = a0r.wrapping_add(a3);
        let b3 = rotl(a3, 21) ^ b0;
        let b2 = a2.wrapping_add(a1);
        let b1 = rotl(a1, 17) ^ b2;
        let b2r = rotl(b2, 32);
        *self = DefaultHasher { v0: b0, v1: b1, v2: b2r, v3: b3, ..prev };
    }

    fn write_byte(&mut self, b: u8)
        ensures
            *final(self) == Self::spec_write_byte(*old(self), b),
    {
        proof {
            use_type_invariant(&*self);
        }
        let prev = *self;
        let shift: u64 = 8 * prev.ntail;
        let t = prev.tail | ((b as u64) << shift);
        let len2 = prev.length.wrapping_add(1);
        if prev.ntail == 7 {
            self.v3 = self.v3 ^ t;
            self.round();
            proof {
                lemma_zero_tail(self.ntail);
                lemma_zero_tail(0);
            }
            let mixed = *self;
            *self = DefaultHasher { v0: mixed.v0 ^ t, tail: 0, ntail: 0, length: len2, ..mixed };
        } else {
            proof {
                lemma_tail_step(prev.tail, prev.ntail, b);
            }
            *self = DefaultHasher { tail: t, ntail: prev.ntail + 1, length: len2, ..prev };
        }
    }

    /// Absorb `msg` into the running state, order-sensitively.
    pub fn write(&mut self, msg: &[u8])
        ensures
            *final(self) == Self::spec_write(*old(self), msg@),
    {
        let mut i: usize = 0;
        while i < msg.len()
            invariant
                i <= msg.len(),
                *self == Self::spec_write(*old(self), msg@.take(i as int)),
            decreases msg.len() - i,
        {
            let b = msg[i];
            proof {
                lemma_write_push(*old(self), msg@.take(i as int), msg@[i as int]);
                assert(msg@.take(i as int).push(msg@[i as int]) =~= msg@.take(i + 1));
            }
            self.write_byte(b);
            i = i + 1;
        }
        proof {
            assert(msg@.take(msg@.len() as int) =~= msg@);
        }
    }

    /// Report the digest of everything absorbed so far. Idempotent: the
    /// state is not consumed, and repeated calls return the same value
    /// until more bytes are written.
    pub fn finish(&self) -> (r: u64)
        ensures
            r == Self::spec_finish(*self),
    {
        proof {
            use_type_invariant(self);
        }
        let b = ((self.length & 0xff) << 56) | self.tail;
        let mut m = *self;
        m.v3 = m.v3 ^ b;
        m.round();
        m.v0 = m.v0 ^ b;
        m.v2 = m.v2 ^ 0xff;
        m.round();
        m.round();
        m.round();
        m.v0 ^ m.v1 ^ m.v2 ^ m.v3
    }
}

/// Left rotation of a 64-bit lane.
spec fn spec_rotl(x: u64, s: u64) -> u64
    recommends
        0 < s < 64,
{
    (x << s) | (x >> (64 - s) as u64)
}

fn rotl(x: u64, s: u64) -> (r: u64)
    requires
        0 < s < 64,
    ensures
        r == spec_rotl(x, s),
{
    (x << s) | (x >> 64 - s)
}

/// Absorbing a sequence and then one more byte is the same as absorbing
/// the extended sequence.
proof fn lemma_write_push(h: DefaultHasher, s: Seq<u8>, b: u8)
    ensures
        DefaultHasher::spec_write(h, s.push(b))
            == DefaultHasher::spec_write_byte(DefaultHasher::spec_write(h, s), b),
    decreases s.len(),
{
    let wb = DefaultHasher::spec_write_byte(h, s.push(b)[0]);
    if s.len() == 0 {
        assert(s.push(b)[0] == b);
        assert(s.push(b).skip(1) =~= Seq::<u8>::empty());
        assert(DefaultHasher::spec_write(wb, Seq::<u8>::empty()) == wb);
        assert(DefaultHasher::spec_write(h, s) == h);
    } else {
        assert(s.push(b)[0] == s[0]);
        assert(s.push(b).skip(1) =~= s.skip(1).push(b));
        lemma_write_push(wb, s.skip(1), b);
        assert(DefaultHasher::spec_write(h, s)
            == DefaultHasher::spec_write(wb, s.skip(1)));
    }
}

/// Hash consistency: two hashers in the same state, fed the same byte
/// sequence, report the same digest.
pub proof fn lemma_hash_consistency(h1: DefaultHasher, h2: DefaultHasher, data: Seq<u8>)
    requires
        h1 == h2,
    ensures
        DefaultHasher::spec_finish(DefaultHasher::spec_write(h1, data))
            == DefaultHasher::spec_finish(DefaultHasher::spec_write(h2, data)),
{
}

impl Default for DefaultHasher {
    /// Equivalent to `DefaultHasher::new`.
    fn default() -> (r: DefaultHasher)
        ensures
            r == DefaultHasher::spec_init(0, 0),
    {
        DefaultHasher::new()
    }
}

} // verus!
