//! Double hashing: two keyed SipHash-1-3 hashes of an item give the first two
//! indexes, and every further index is a combination of those two.

use vstd::prelude::*;
use std::hash::{Hash, Hasher};

verus! {

/// SipHash-1-3 under `key` of `data`, fed to the hasher the way `Hash` feeds
/// a byte slice: its length as a native `usize` (eight bytes on 64-bit
/// targets, four on 32-bit ones), then its bytes.
pub uninterp spec fn sip13(key: Seq<u8>, data: Seq<u8>) -> u64;

/// Relies on `siphasher::sip::SipHasher13::new_with_key`, on `Hash for [u8]`
/// writing into it, and on `Hasher::finish`: a function of the key and the
/// bytes alone.
#[verifier::external_body]
fn sip13_hash(key: &[u8; 16], data: &[u8]) -> (r: u64)
    ensures
        r == sip13(key@, data@),
{
    let mut h = siphasher::sip::SipHasher13::new_with_key(key);
    data.hash(&mut h);
    h.finish()
}

/// The prime modulus of the combined indexes.
pub const K2_MODULUS: u64 = 0xffff_ffff_ffff_ffc5;

/// Index number `i` of an item whose two hashes are `h0` and `h1`.
pub open spec fn k2_index(h0: u64, h1: u64, i: nat) -> usize {
    if i == 0 {
        h0 as usize
    } else if i == 1 {
        h1 as usize
    } else {
        (((h0 + i * h1) % 0x1_0000_0000_0000_0000) % (K2_MODULUS as int)) as usize
    }
}

/// Index number `i` (from 2 on) of an item whose two hashes are `h0` and `h1`.
pub fn combined_index(h0: u64, h1: u64, i: usize) -> (r: usize)
    requires
        i >= 2,
    ensures
        r == k2_index(h0, h1, i as nat),
{
    proof {
        assert((i as int) * (h1 as int) <= 0xffff_ffff_ffff_ffff * 0xffff_ffff_ffff_ffff) by (nonlinear_arith)
            requires
                i <= 0xffff_ffff_ffff_ffff,
                h1 <= 0xffff_ffff_ffff_ffff,
        ;
    }
    let v: u128 = (h0 as u128) + (i as u128) * (h1 as u128);
    let low: u64 = (v % 0x1_0000_0000_0000_0000u128) as u64;
    #[verifier::truncate] ((low % K2_MODULUS) as usize)
}

/// Two SipHash-1-3 keys.
#[derive(Clone, Copy, Debug)]
pub struct K2Hasher {
    key0: [u8; 16],
    key1: [u8; 16],
}

impl K2Hasher {
    /// The first key.
    pub closed spec fn first_key(&self) -> Seq<u8> {
        self.key0@
    }

    /// The second key.
    pub closed spec fn second_key(&self) -> Seq<u8> {
        self.key1@
    }

    /// The first hash of `item`.
    pub open spec fn hash0(&self, item: Seq<u8>) -> u64 {
        sip13(self.first_key(), item)
    }

    /// The second hash of `item`.
    pub open spec fn hash1(&self, item: Seq<u8>) -> u64 {
        sip13(self.second_key(), item)
    }

    /// Index number `i` of `item`.
    pub open spec fn index(&self, item: Seq<u8>, i: nat) -> usize {
        k2_index(self.hash0(item), self.hash1(item), i)
    }

    /// Keys taken from `seed`: its first sixteen bytes, then the next sixteen.
    pub fn with_seed(seed: &[u8; 32]) -> (r: Self)
        ensures
            r.first_key() == seed@.subrange(0, 16),
            r.second_key() == seed@.subrange(16, 32),
    {
        let mut key0 = [0u8; 16];
        let mut key1 = [0u8; 16];
        let mut i: usize = 0;
        while i < 16
            invariant
                i <= 16,
                forall|j: int| 0 <= j < i ==> key0@[j] == seed@[j] && key1@[j] == seed@[j + 16],
            decreases 16 - i,
        {
            key0[i] = seed[i];
            key1[i] = seed[i + 16];
            i += 1;
        }
        let r = K2Hasher { key0, key1 };
        assert(r.first_key() =~= seed@.subrange(0, 16));
        assert(r.second_key() =~= seed@.subrange(16, 32));
        r
    }

    /// The first hash of `item`.
    pub fn first_hash(&self, item: &[u8]) -> (r: u64)
        ensures
            r == self.hash0(item@),
    {
        sip13_hash(&self.key0, item)
    }

    /// The second hash of `item`.
    pub fn second_hash(&self, item: &[u8]) -> (r: u64)
        ensures
            r == self.hash1(item@),
    {
        sip13_hash(&self.key1, item)
    }

    /// The indexes of `item`, one after the other.
    pub fn iter<'a>(&self, item: &'a [u8]) -> (r: IterK2Hasher<'a>)
        ensures
            r.wf(),
            r.hasher() == *self,
            r.item() == item@,
            r.position() == 0,
    {
        IterK2Hasher::new(*self, item)
    }

    /// The first `k` indexes of `item`, each reduced modulo `m`.
    pub fn offsets(&self, item: &[u8], k: usize, m: usize) -> (r: Vec<usize>)
        requires
            m > 0,
        ensures
            r@.len() == k,
            forall|i: int| 0 <= i < k ==> #[trigger] r@[i] == self.index(item@, i as nat) % m,
    {
        let mut out: Vec<usize> = Vec::new();
        let mut it = self.iter(item);
        let mut i: usize = 0;
        while i < k
            invariant
                i <= k,
                m > 0,
                it.wf(),
                it.hasher() == *self,
                it.item() == item@,
                it.position() == i,
                out@.len() == i,
                forall|j: int| 0 <= j < i ==> #[trigger] out@[j] == self.index(item@, j as nat) % m,
            decreases k - i,
        {
            let n = it.next();
            out.push(n % m);
            i += 1;
        }
        out
    }
}

/// The indexes of one item under a `K2Hasher`, one after the other.
pub struct IterK2Hasher<'a> {
    hasher: K2Hasher,
    i: usize,
    hashes: [u64; 2],
    item: &'a [u8],
}

impl<'a> IterK2Hasher<'a> {
    /// The keys the indexes come from.
    pub closed spec fn hasher(&self) -> K2Hasher {
        self.hasher
    }

    /// The item whose indexes are handed out.
    pub closed spec fn item(&self) -> Seq<u8> {
        self.item@
    }

    /// How many indexes have been handed out.
    pub closed spec fn position(&self) -> nat {
        self.i as nat
    }

    /// The hashes computed so far are those of the item.
    pub closed spec fn wf(&self) -> bool {
        &&& self.i >= 1 ==> self.hashes@[0] == self.hasher.hash0(self.item@)
        &&& self.i >= 2 ==> self.hashes@[1] == self.hasher.hash1(self.item@)
    }

    /// Starts before the first index of `item`.
    pub fn new(hasher: K2Hasher, item: &'a [u8]) -> (r: Self)
        ensures
            r.wf(),
            r.hasher() == hasher,
            r.item() == item@,
            r.position() == 0,
    {
        IterK2Hasher { hasher, i: 0, hashes: [0u64, 0u64], item }
    }

    /// Returns the next index.
    pub fn next(&mut self) -> (r: usize)
        requires
            old(self).wf(),
            old(self).position() < usize::MAX,
        ensures
            final(self).wf(),
            final(self).hasher() == old(self).hasher(),
            final(self).item() == old(self).item(),
            final(self).position() == old(self).position() + 1,
            r == old(self).hasher().index(old(self).item(), old(self).position()),
    {
        let r = if self.i == 0 {
            let h = self.hasher.first_hash(self.item);
            self.hashes[0] = h;
            #[verifier::truncate] (h as usize)
        } else if self.i == 1 {
            let h = self.hasher.second_hash(self.item);
            self.hashes[1] = h;
            #[verifier::truncate] (h as usize)
        } else {
            combined_index(self.hashes[0], self.hashes[1], self.i)
        };
        self.i = self.i + 1;
        r
    }
}

} // verus!
