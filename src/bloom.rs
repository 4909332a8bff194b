//! A 32-bit Bloom filter with two probes per key.
use std::collections::hash_map::DefaultHasher;
use std::hash::Hasher;
use vstd::prelude::*;
use vstd::std_specs::hash::DefaultHasherAdditionalSpecFns;

verus! {

/// First probe position (bits 0..5 of the hash).
pub open spec fn probe_low(h: u64) -> u64 {
    h & 0x1f
}

/// Second probe position (bits 5..10 of the hash).
pub open spec fn probe_high(h: u64) -> u64 {
    (h >> 5u64) & 0x1f
}

/// The bits that a hash sets in the filter.
pub open spec fn probe_mask(h: u64) -> u32 {
    (1u32 << (probe_low(h) as u32)) | (1u32 << (probe_high(h) as u32))
}

/// The hash of a key: SipHash (std's `DefaultHasher`) over the key's bytes.
pub open spec fn key_hash(bytes: Seq<u8>) -> u64 {
    DefaultHasher::spec_finish(seq![bytes])
}

/// The little-endian bytes of a 64-bit value.
pub open spec fn le_bytes(x: u64) -> Seq<u8> {
    seq![
        (x & 0xff) as u8,
        ((x >> 8u64) & 0xff) as u8,
        ((x >> 16u64) & 0xff) as u8,
        ((x >> 24u64) & 0xff) as u8,
        ((x >> 32u64) & 0xff) as u8,
        ((x >> 40u64) & 0xff) as u8,
        ((x >> 48u64) & 0xff) as u8,
        ((x >> 56u64) & 0xff) as u8,
    ]
}

fn le_bytes_exec(x: u64) -> (r: Vec<u8>)
    ensures
        r@ == le_bytes(x),
{
    let r = vec![
        (x & 0xff) as u8,
        ((x >> 8u64) & 0xff) as u8,
        ((x >> 16u64) & 0xff) as u8,
        ((x >> 24u64) & 0xff) as u8,
        ((x >> 32u64) & 0xff) as u8,
        ((x >> 40u64) & 0xff) as u8,
        ((x >> 48u64) & 0xff) as u8,
        ((x >> 56u64) & 0xff) as u8,
    ];
    assert(r@ =~= le_bytes(x));
    r
}

/// A value that the filter can take: it is hashed through its byte encoding.
pub trait BloomKey {
    spec fn key_bytes_spec(&self) -> Seq<u8>;

    fn key_bytes(&self) -> (r: Vec<u8>)
        ensures
            r@ == self.key_bytes_spec(),
    ;
}

impl BloomKey for u64 {
    open spec fn key_bytes_spec(&self) -> Seq<u8> {
        le_bytes(*self)
    }

    fn key_bytes(&self) -> (r: Vec<u8>) {
        le_bytes_exec(*self)
    }
}

impl BloomKey for usize {
    open spec fn key_bytes_spec(&self) -> Seq<u8> {
        le_bytes(*self as u64)
    }

    fn key_bytes(&self) -> (r: Vec<u8>) {
        le_bytes_exec(*self as u64)
    }
}

impl BloomKey for u32 {
    open spec fn key_bytes_spec(&self) -> Seq<u8> {
        le_bytes(*self as u64)
    }

    fn key_bytes(&self) -> (r: Vec<u8>) {
        le_bytes_exec(*self as u64)
    }
}

/// Hashes a key with SipHash over its byte encoding.
pub fn hash_key<T: BloomKey>(t: &T) -> (r: u64)
    ensures
        r == key_hash(t.key_bytes_spec()),
{
    let bytes = t.key_bytes();
    let mut hasher = DefaultHasher::new();
    hasher.write(bytes.as_slice());
    hasher.finish()
}

/// A set summary in 32 bits: no false negatives, some false positives.
#[derive(Clone, Copy)]
pub struct TinyBloomFilter {
    bits: u32,
}

impl TinyBloomFilter {
    /// The filter's bits.
    pub closed spec fn view(&self) -> u32 {
        self.bits
    }

    /// Whether every probe bit of the hash is set in `bits`.
    pub open spec fn holds_hash(bits: u32, h: u64) -> bool {
        bits & probe_mask(h) == probe_mask(h)
    }

    /// No false negatives: once a hash is inserted the filter reports it,
    /// and it keeps reporting it after any further insert.
    pub proof fn lemma_inserted_hash_is_reported(bits: u32, h: u64, later: u64)
        ensures
            TinyBloomFilter::holds_hash(bits | probe_mask(h), h),
            TinyBloomFilter::holds_hash((bits | probe_mask(h)) | probe_mask(later), h),
    {
        let m = probe_mask(h);
        let m2 = probe_mask(later);
        assert((bits | m) & m == m) by (bit_vector);
        assert(((bits | m) | m2) & m == m) by (bit_vector);
    }

    pub fn new() -> (r: TinyBloomFilter)
        ensures
            r.view() == 0u32,
    {
        TinyBloomFilter { bits: 0u32 }
    }

    pub fn probe_sequence(hash: u64) -> (r: [usize; 2])
        ensures
            r@ == seq![probe_low(hash) as usize, probe_high(hash) as usize],
            r@[0] < 32,
            r@[1] < 32,
    {
        let lo = hash & 0x1f;
        let hi = (hash >> 5u64) & 0x1f;
        assert(lo < 32 && hi < 32) by (bit_vector)
            requires
                lo == hash & 0x1f,
                hi == (hash >> 5u64) & 0x1f,
        ;
        let r = [lo as usize, hi as usize];
        assert(r@ =~= seq![probe_low(hash) as usize, probe_high(hash) as usize]);
        r
    }

    pub fn insert_hashed(&mut self, hash: u64)
        ensures
            final(self).view() == old(self).view() | probe_mask(hash),
    {
        let probes = TinyBloomFilter::probe_sequence(hash);
        let mut i: usize = 0;
        while i < 2
            invariant
                probes@ == seq![probe_low(hash) as usize, probe_high(hash) as usize],
                probes@[0] < 32,
                probes@[1] < 32,
                i <= 2,
                i == 0 ==> self.bits == old(self).bits,
                i == 1 ==> self.bits == old(self).bits | (1u32 << (probe_low(hash) as u32)),
                i == 2 ==> self.bits == old(self).bits | probe_mask(hash),
            decreases 2 - i,
        {
            let off = probes[i] as u32;
            let b = self.bits;
            self.bits = b | (1u32 << off);
            proof {
                let o = old(self).bits;
                let l = probe_low(hash) as u32;
                let m = probe_high(hash) as u32;
                if i == 1 {
                    assert((o | (1u32 << l)) | (1u32 << m) == o | ((1u32 << l) | (1u32 << m)))
                        by (bit_vector);
                }
            }
            i = i + 1;
        }
    }

    pub fn may_include_hashed(&self, hash: u64) -> (r: bool)
        ensures
            r == TinyBloomFilter::holds_hash(self.view(), hash),
    {
        let mut ret = true;
        let probes = TinyBloomFilter::probe_sequence(hash);
        let mut i: usize = 0;
        // present only when every bit of the probe sequence is set
        while i < 2
            invariant
                probes@ == seq![probe_low(hash) as usize, probe_high(hash) as usize],
                probes@[0] < 32,
                probes@[1] < 32,
                i <= 2,
                i == 1 ==> ret == (self.bits & (1u32 << (probe_low(hash) as u32)) != 0),
                i == 2 ==> ret == TinyBloomFilter::holds_hash(self.bits, hash),
                i == 0 ==> ret,
            decreases 2 - i,
        {
            let off = probes[i] as u32;
            ret = ret && ((self.bits >> off) & 1u32) != 0;
            proof {
                let b = self.bits;
                let l = probe_low(hash) as u32;
                let m = probe_high(hash) as u32;
                assert(l < 32 && m < 32);
                assert(((b >> l) & 1u32 != 0) == (b & (1u32 << l) != 0)) by (bit_vector)
                    requires
                        l < 32,
                ;
                assert(((b >> m) & 1u32 != 0) == (b & (1u32 << m) != 0)) by (bit_vector)
                    requires
                        m < 32,
                ;
                assert((b & ((1u32 << l) | (1u32 << m)) == ((1u32 << l) | (1u32 << m))) == (
                b & (1u32 << l) != 0 && b & (1u32 << m) != 0)) by (bit_vector)
                    requires
                        l < 32,
                        m < 32,
                ;
            }
            i = i + 1;
        }
        ret
    }

    pub fn insert<T: BloomKey>(&mut self, t: &T)
        ensures
            final(self).view() == old(self).view() | probe_mask(key_hash(t.key_bytes_spec())),
    {
        let h = hash_key(t);
        self.insert_hashed(h);
    }

    pub fn definitely_excludes<T: BloomKey>(&self, t: &T) -> (r: bool)
        ensures
            r == !TinyBloomFilter::holds_hash(self.view(), key_hash(t.key_bytes_spec())),
    {
        !self.may_include(t)
    }

    pub fn may_include<T: BloomKey>(&self, t: &T) -> (r: bool)
        ensures
            r == TinyBloomFilter::holds_hash(self.view(), key_hash(t.key_bytes_spec())),
    {
        self.may_include_hashed(hash_key(t))
    }

    pub fn clear(&mut self)
        ensures
            final(self).view() == 0u32,
    {
        self.bits = 0u32;
    }
}

} // verus!
