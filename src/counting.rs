//! Counting Bloom filters: an item is recorded by adding one to the counters
//! at its first `k` double-hashing indexes, and reported present when each of
//! those counters has reached a threshold.

use vstd::prelude::*;
use crate::k2hasher::K2Hasher;
use crate::unit::UCounter;

verus! {

/// How many of the first `n` entries of `offs` equal `j`.
pub open spec fn hits(offs: Seq<int>, n: nat, j: int) -> nat
    decreases n,
{
    if n == 0 {
        0
    } else {
        hits(offs, (n - 1) as nat, j) + if offs[n - 1] == j {
            1nat
        } else {
            0nat
        }
    }
}

/// A counting Bloom filter over byte strings with counters of type `T`.
pub struct CountingFilter<T: UCounter> {
    storage: Vec<T>,
    m: usize,
    k: usize,
    hasher: K2Hasher,
}

impl<T: UCounter> CountingFilter<T> {
    /// The counts held by the counters.
    pub closed spec fn counts(&self) -> Seq<nat> {
        self.storage@.map_values(|c: T| c.count())
    }

    /// The number of counters.
    pub closed spec fn size(&self) -> nat {
        self.m as nat
    }

    /// How many counters each item touches.
    pub closed spec fn hash_count(&self) -> nat {
        self.k as nat
    }

    /// The keys of the two hashes.
    pub closed spec fn hasher(&self) -> K2Hasher {
        self.hasher
    }

    /// The filter has as many counters as it says, and at least one.
    pub open spec fn wf(&self) -> bool {
        &&& self.size() > 0
        &&& self.counts().len() == self.size()
    }

    /// The counter indexes of `item`, in the order they are visited.
    pub open spec fn offsets_of(&self, item: Seq<u8>) -> Seq<int> {
        Seq::new(self.hash_count(), |i: int| self.hasher().index(item, i as nat) as int % self.size() as int)
    }

    /// An empty filter of `counters_count` counters in which each item
    /// touches `k` counters, hashed under keys taken from `seed`.
    pub fn with_hash_count(counters_count: usize, k: usize, seed: &[u8; 32]) -> (r: Self)
        requires
            counters_count > 0,
        ensures
            r.wf(),
            r.size() == counters_count,
            r.hash_count() == k,
            r.hasher().first_key() == seed@.subrange(0, 16),
            r.hasher().second_key() == seed@.subrange(16, 32),
            forall|j: int| 0 <= j < counters_count ==> #[trigger] r.counts()[j] == 0,
    {
        let hasher = K2Hasher::with_seed(seed);
        let mut storage: Vec<T> = Vec::with_capacity(counters_count);
        let mut i: usize = 0;
        while i < counters_count
            invariant
                i <= counters_count,
                storage@.len() == i,
                forall|j: int| 0 <= j < i ==> (#[trigger] storage@[j]).count() == 0,
            decreases counters_count - i,
        {
            storage.push(T::zero());
            i += 1;
        }
        let r = CountingFilter { storage, m: counters_count, k, hasher };
        assert(r.counts().len() == counters_count);
        r
    }

    /// Records `item`: adds one to each of its counters, once per index.
    pub fn set(&mut self, item: &[u8])
        requires
            old(self).wf(),
            forall|j: int|
                0 <= j < old(self).size() ==> #[trigger] old(self).counts()[j] + old(self).hash_count()
                    <= T::max_count(),
        ensures
            final(self).wf(),
            final(self).size() == old(self).size(),
            final(self).hash_count() == old(self).hash_count(),
            final(self).hasher() == old(self).hasher(),
            forall|j: int|
                0 <= j < old(self).size() ==> #[trigger] final(self).counts()[j] == old(self).counts()[j]
                    + hits(old(self).offsets_of(item@), old(self).hash_count(), j),
    {
        let _ = self.visit(item, None);
    }

    /// Whether each counter of `item` has reached `threshold`.
    pub fn check(&self, item: &[u8], threshold: T) -> (r: bool)
        requires
            self.wf(),
        ensures
            r == forall|i: int| 0 <= i < self.hash_count() ==> !(#[trigger] self.counts()[self.offsets_of(item@)[i]] < threshold.count()),
    {
        let offs = self.hasher.offsets(item, self.k, self.m);
        let mut found = true;
        let mut i: usize = 0;
        while i < self.k
            invariant
                self.wf(),
                i <= self.k,
                offs@.len() == self.k,
                forall|t: int| 0 <= t < self.k ==> #[trigger] offs@[t] == self.offsets_of(item@)[t],
                found == forall|t: int| 0 <= t < i ==> !(#[trigger] self.counts()[self.offsets_of(item@)[t]] < threshold.count()),
            decreases self.k - i,
        {
            let ndx = offs[i];
            proof {
                assert(self.offsets_of(item@)[i as int] == ndx);
                assert(self.counts()[ndx as int] == self.storage@[ndx as int].count());
            }
            if self.storage[ndx].less_than(&threshold) {
                found = false;
            }
            i += 1;
        }
        found
    }

    /// Reports whether each counter of `item` had reached `threshold` when it
    /// was visited, and adds one to it; a counter visited twice is seen the
    /// second time with the first addition made.
    pub fn check_and_set(&mut self, item: &[u8], threshold: T) -> (r: bool)
        requires
            old(self).wf(),
            forall|j: int|
                0 <= j < old(self).size() ==> #[trigger] old(self).counts()[j] + old(self).hash_count()
                    <= T::max_count(),
        ensures
            final(self).wf(),
            final(self).size() == old(self).size(),
            final(self).hash_count() == old(self).hash_count(),
            final(self).hasher() == old(self).hasher(),
            forall|j: int|
                0 <= j < old(self).size() ==> #[trigger] final(self).counts()[j] == old(self).counts()[j]
                    + hits(old(self).offsets_of(item@), old(self).hash_count(), j),
            r == forall|i: int|
                0 <= i < old(self).hash_count() ==> !(old(self).counts()[old(self).offsets_of(item@)[i]]
                    + hits(old(self).offsets_of(item@), i as nat, old(self).offsets_of(item@)[i])
                    < threshold.count()),
    {
        self.visit(item, Some(threshold))
    }

    /// Visits the counters of `item` in order, comparing each with the
    /// threshold, if any, before adding one to it.
    fn visit(&mut self, item: &[u8], threshold: Option<T>) -> (r: bool)
        requires
            old(self).wf(),
            forall|j: int|
                0 <= j < old(self).size() ==> #[trigger] old(self).counts()[j] + old(self).hash_count()
                    <= T::max_count(),
        ensures
            final(self).wf(),
            final(self).size() == old(self).size(),
            final(self).hash_count() == old(self).hash_count(),
            final(self).hasher() == old(self).hasher(),
            forall|j: int|
                0 <= j < old(self).size() ==> #[trigger] final(self).counts()[j] == old(self).counts()[j]
                    + hits(old(self).offsets_of(item@), old(self).hash_count(), j),
            threshold matches Some(th) ==> r == forall|i: int|
                0 <= i < old(self).hash_count() ==> !(old(self).counts()[old(self).offsets_of(item@)[i]]
                    + hits(old(self).offsets_of(item@), i as nat, old(self).offsets_of(item@)[i])
                    < th.count()),
    {
        let offs = self.hasher.offsets(item, self.k, self.m);
        let ghost c0 = self.counts();
        let ghost os = old(self).offsets_of(item@);
        let mut found = true;
        let mut i: usize = 0;
        while i < self.k
            invariant
                self.wf(),
                i <= self.k,
                self.m == old(self).m,
                self.k == old(self).k,
                self.hasher == old(self).hasher,
                c0 == old(self).counts(),
                c0.len() == self.m,
                os == old(self).offsets_of(item@),
                offs@.len() == self.k,
                forall|t: int| 0 <= t < self.k ==> #[trigger] offs@[t] == os[t],
                forall|j: int| 0 <= j < self.m ==> c0[j] + self.k <= T::max_count(),
                forall|j: int| 0 <= j < self.m ==> #[trigger] self.counts()[j] == c0[j] + hits(os, i as nat, j),
                threshold matches Some(th) ==> found == forall|t: int|
                    0 <= t < i ==> !(c0[os[t]] + hits(os, t as nat, os[t]) < th.count()),
            decreases self.k - i,
        {
            let ndx = offs[i];
            proof {
                assert(os[i as int] == ndx);
                lemma_hits_bound(os, i as nat, ndx as int);
                assert(self.counts()[ndx as int] == self.storage@[ndx as int].count());
            }
            let ghost pre = self.counts();
            let mut c = self.storage[ndx];
            match threshold {
                Some(th) => {
                    if c.less_than(&th) {
                        found = false;
                    }
                },
                None => {},
            }
            c.increment();
            self.storage.set(ndx, c);
            proof {
                assert(self.counts() =~= pre.update(ndx as int, pre[ndx as int] + 1));
                assert forall|j: int| 0 <= j < self.m implies #[trigger] self.counts()[j] == c0[j] + hits(
                    os,
                    (i + 1) as nat,
                    j,
                ) by {
                    assert(hits(os, (i + 1) as nat, j) == hits(os, i as nat, j) + if os[i as int] == j {
                        1nat
                    } else {
                        0nat
                    });
                }
            }
            i += 1;
        }
        found
    }
}

proof fn lemma_hits_bound(offs: Seq<int>, n: nat, j: int)
    ensures
        hits(offs, n, j) <= n,
    decreases n,
{
    if n > 0 {
        lemma_hits_bound(offs, (n - 1) as nat, j);
    }
}

} // verus!
