//! Bloom filters: an item is recorded by setting the bits at its first `k`
//! double-hashing indexes, and reported present when all of them are set.

use vstd::prelude::*;
use bit_vec::BitVec;
use crate::k2hasher::K2Hasher;

verus! {

/// `bit_vec::BitVec`, held opaque; what it holds is named by `bitvec_bits`.
#[verifier::external_type_specification]
#[verifier::external_body]
#[verifier::reject_recursive_types(B)]
pub struct ExBitVec<B>(BitVec<B>);

/// The bits a bit vector holds, from index 0 up.
pub uninterp spec fn bitvec_bits(v: BitVec) -> Seq<bool>;

/// Relies on `BitVec::from_elem`: `nbits` bits, each equal to `bit`.
#[verifier::external_body]
fn bitvec_from_elem(nbits: usize, bit: bool) -> (r: BitVec)
    ensures
        bitvec_bits(r) == Seq::new(nbits as nat, |_i: int| bit),
{
    BitVec::from_elem(nbits, bit)
}

/// Relies on `BitVec::get`: the bit at `i`, or `None` from the length on.
#[verifier::external_body]
fn bitvec_get(v: &BitVec, i: usize) -> (r: Option<bool>)
    ensures
        i < bitvec_bits(*v).len() ==> r == Some(bitvec_bits(*v)[i as int]),
        i >= bitvec_bits(*v).len() ==> r is None,
{
    v.get(i)
}

/// Relies on `BitVec::set`: the bit at `i` becomes `x` and the others stay;
/// it panics from the length on.
#[verifier::external_body]
fn bitvec_set(v: &mut BitVec, i: usize, x: bool)
    requires
        i < bitvec_bits(*old(v)).len(),
    ensures
        bitvec_bits(*final(v)) == bitvec_bits(*old(v)).update(i as int, x),
{
    v.set(i, x)
}

/// Whether `j` is among the first `n` entries of `offs`.
pub open spec fn among(offs: Seq<usize>, n: int, j: int) -> bool {
    exists|t: int| 0 <= t < n && offs[t] == j
}

/// A Bloom filter over byte strings.
pub struct Filter {
    bits: BitVec,
    m: usize,
    k: usize,
    hasher: K2Hasher,
}

impl Filter {
    /// The bits of the filter.
    pub closed spec fn bits(&self) -> Seq<bool> {
        bitvec_bits(self.bits)
    }

    /// The number of bits.
    pub closed spec fn size(&self) -> nat {
        self.m as nat
    }

    /// How many bits each item sets.
    pub closed spec fn hash_count(&self) -> nat {
        self.k as nat
    }

    /// The keys of the two hashes.
    pub closed spec fn hasher(&self) -> K2Hasher {
        self.hasher
    }

    /// The filter has as many bits as it says, and at least one.
    pub open spec fn wf(&self) -> bool {
        &&& self.size() > 0
        &&& self.bits().len() == self.size()
    }

    /// Bit number `i` of `item`.
    pub open spec fn offset(&self, item: Seq<u8>, i: nat) -> int {
        self.hasher().index(item, i) as int % self.size() as int
    }

    /// Whether every bit of `item` is set.
    pub open spec fn holds(&self, item: Seq<u8>) -> bool {
        forall|i: nat| i < self.hash_count() ==> #[trigger] self.bits()[self.offset(item, i)]
    }

    /// `after` is this filter with the bits of `item` set.
    pub open spec fn with_item(&self, item: Seq<u8>, after: Filter) -> bool {
        &&& after.wf()
        &&& after.size() == self.size()
        &&& after.hash_count() == self.hash_count()
        &&& after.hasher() == self.hasher()
        &&& forall|j: int|
            0 <= j < self.size() ==> #[trigger] after.bits()[j] == (self.bits()[j] || exists|i: nat|
                i < self.hash_count() && self.offset(item, i) == j)
    }

    /// An empty filter of `bytes_count` bytes in which each item sets `k`
    /// bits, hashed under keys taken from `seed`.
    pub fn with_hash_count(bytes_count: usize, k: usize, seed: &[u8; 32]) -> (r: Filter)
        requires
            bytes_count > 0,
            bytes_count * 8 <= usize::MAX,
        ensures
            r.wf(),
            r.size() == bytes_count * 8,
            r.hash_count() == k,
            r.hasher().first_key() == seed@.subrange(0, 16),
            r.hasher().second_key() == seed@.subrange(16, 32),
            forall|j: int| 0 <= j < r.size() ==> !(#[trigger] r.bits()[j]),
    {
        let m = bytes_count * 8;
        let hasher = K2Hasher::with_seed(seed);
        let bits = bitvec_from_elem(m, false);
        Filter { bits, m, k, hasher }
    }

    /// Records `item`.
    pub fn set(&mut self, item: &[u8])
        requires
            old(self).wf(),
        ensures
            old(self).with_item(item@, *final(self)),
    {
        let offs = self.hasher.offsets(item, self.k, self.m);
        let ghost b0 = self.bits();
        let mut i: usize = 0;
        while i < self.k
            invariant
                self.wf(),
                i <= self.k,
                self.m == old(self).m,
                self.k == old(self).k,
                self.hasher == old(self).hasher,
                b0 == old(self).bits(),
                offs@.len() == self.k,
                forall|t: int| 0 <= t < self.k ==> #[trigger] offs@[t] == old(self).offset(item@, t as nat),
                forall|j: int| 0 <= j < self.m ==> #[trigger] self.bits()[j] == (b0[j] || among(offs@, i as int, j)),
            decreases self.k - i,
        {
            bitvec_set(&mut self.bits, offs[i], true);
            i += 1;
        }
        proof {
            assert forall|j: int| 0 <= j < self.m implies #[trigger] self.bits()[j] == (b0[j] || exists|t: nat|
                t < self.k && old(self).offset(item@, t) == j) by {
                if among(offs@, self.k as int, j) {
                    let t = choose|t: int| 0 <= t < self.k && offs@[t] == j;
                    assert(old(self).offset(item@, t as nat) == j);
                }
                if exists|t: nat| t < self.k && old(self).offset(item@, t) == j {
                    let t = choose|t: nat| t < self.k && old(self).offset(item@, t) == j;
                    assert(offs@[t as int] == j);
                }
            }
        }
    }

    /// Whether `item` may have been recorded: every one of its bits is set.
    pub fn check(&self, item: &[u8]) -> (r: bool)
        requires
            self.wf(),
        ensures
            r == self.holds(item@),
    {
        let offs = self.hasher.offsets(item, self.k, self.m);
        let mut found = true;
        let mut i: usize = 0;
        while i < self.k
            invariant
                self.wf(),
                i <= self.k,
                offs@.len() == self.k,
                forall|t: int| 0 <= t < self.k ==> #[trigger] offs@[t] == self.offset(item@, t as nat),
                found == forall|t: nat| t < i ==> #[trigger] self.bits()[self.offset(item@, t)],
            decreases self.k - i,
        {
            let b = bitvec_get(&self.bits, offs[i]);
            if b != Some(true) {
                found = false;
            }
            proof {
                assert(offs@[i as int] == self.offset(item@, i as nat));
            }
            i += 1;
        }
        found
    }

    /// Reports whether `item` may have been recorded before, and records it.
    pub fn check_and_set(&mut self, item: &[u8]) -> (r: bool)
        requires
            old(self).wf(),
        ensures
            r == old(self).holds(item@),
            old(self).with_item(item@, *final(self)),
    {
        let found = self.check(item);
        self.set(item);
        found
    }
}

/// A Bloom filter over byte strings, hashing each item with two keyed
/// SipHash-1-3 hashers.
pub struct BloomFilter {
    filter: Filter,
}

impl BloomFilter {
    /// The filter underneath.
    pub closed spec fn inner(&self) -> Filter {
        self.filter
    }

    /// An empty filter of `bytes_count` bytes in which each item sets `k`
    /// bits, hashed under keys taken from `seed`.
    pub fn with_hash_count(bytes_count: usize, k: usize, seed: &[u8; 32]) -> (r: BloomFilter)
        requires
            bytes_count > 0,
            bytes_count * 8 <= usize::MAX,
        ensures
            r.inner().wf(),
            r.inner().size() == bytes_count * 8,
            r.inner().hash_count() == k,
            r.inner().hasher().first_key() == seed@.subrange(0, 16),
            r.inner().hasher().second_key() == seed@.subrange(16, 32),
            forall|j: int| 0 <= j < r.inner().size() ==> !(#[trigger] r.inner().bits()[j]),
    {
        BloomFilter { filter: Filter::with_hash_count(bytes_count, k, seed) }
    }

    /// Records `item`.
    pub fn set(&mut self, item: &[u8])
        requires
            old(self).inner().wf(),
        ensures
            old(self).inner().with_item(item@, final(self).inner()),
    {
        self.filter.set(item)
    }

    /// Whether `item` may have been recorded: every one of its bits is set.
    pub fn check(&self, item: &[u8]) -> (r: bool)
        requires
            self.inner().wf(),
        ensures
            r == self.inner().holds(item@),
    {
        self.filter.check(item)
    }

    /// Reports whether `item` may have been recorded before, and records it.
    pub fn check_and_set(&mut self, item: &[u8]) -> (r: bool)
        requires
            old(self).inner().wf(),
        ensures
            r == old(self).inner().holds(item@),
            old(self).inner().with_item(item@, final(self).inner()),
    {
        self.filter.check_and_set(item)
    }
}

/// A filter reports every item that was recorded in it: right after `item`
/// is set, checking `item` answers yes.
pub proof fn lemma_recorded_items_hold(f: Filter, item: Seq<u8>, after: Filter)
    requires
        f.wf(),
        f.with_item(item, after),
    ensures
        after.holds(item),
{
    assert forall|i: nat| i < after.hash_count() implies #[trigger] after.bits()[after.offset(item, i)] by {
        let j = f.offset(item, i);
        assert(0 <= j < f.size());
        assert(after.bits()[j] == (f.bits()[j] || exists|t: nat| t < f.hash_count() && f.offset(item, t) == j));
    }
}

} // verus!
