//! Heap order on sequences laid out level by level, and the facts about a
//! single relocation step that the sifting loops are proved with.

use vstd::prelude::*;
use vstd::multiset::Multiset;
use crate::order::Priority;

verus! {

broadcast use {vstd::seq_lib::group_to_multiset_ensures, vstd::multiset::group_multiset_axioms};

/// Index of the parent of `i` in a binary heap.
pub open spec fn parent(i: int) -> int {
    (i - 1) / 2
}

/// The element at `i` is not greater than its parent.
pub open spec fn edge_ok<T: Priority>(s: Seq<T>, i: int) -> bool {
    s[i].at_most(s[parent(i)])
}

/// Every element is not greater than its parent.
pub open spec fn heap_ordered<T: Priority>(s: Seq<T>) -> bool {
    forall|i: int| 0 < i < s.len() ==> #[trigger] edge_ok(s, i)
}

/// Every edge whose upper end lies at or after `lo` is in order.
pub open spec fn ordered_from<T: Priority>(s: Seq<T>, lo: int) -> bool {
    forall|i: int| 0 < i < s.len() && parent(i) >= lo ==> #[trigger] edge_ok(s, i)
}

/// Every edge is in order except the one from `p` up to its parent.
pub open spec fn ordered_except<T: Priority>(s: Seq<T>, p: int) -> bool {
    forall|i: int| 0 < i < s.len() && i != p ==> #[trigger] edge_ok(s, i)
}

/// Every edge is in order except those that touch `p`.
pub open spec fn ordered_off<T: Priority>(s: Seq<T>, p: int) -> bool {
    forall|i: int| 0 < i < s.len() && i != p && parent(i) != p ==> #[trigger] edge_ok(s, i)
}

/// The children of `p` are not greater than the parent of `p`.
pub open spec fn bridged<T: Priority>(s: Seq<T>, p: int) -> bool {
    p > 0 ==> forall|i: int|
        0 < i < s.len() && parent(i) == p ==> #[trigger] s[i].at_most(s[parent(p)])
}

/// `x` is in `m` and no element of `m` is greater.
pub open spec fn is_greatest<T: Priority>(x: T, m: Multiset<T>) -> bool {
    &&& m.contains(x)
    &&& forall|y: T| #[trigger] m.contains(y) ==> y.at_most(x)
}

/// Each element is not greater than the one before it.
pub open spec fn non_increasing<T: Priority>(s: Seq<T>) -> bool {
    forall|i: int| 0 < i < s.len() ==> #[trigger] s[i].at_most(s[i - 1])
}

/// The sequence with the elements at `a` and `b` exchanged.
pub open spec fn swapped<T>(s: Seq<T>, a: int, b: int) -> Seq<T> {
    s.update(a, s[b]).update(b, s[a])
}

pub proof fn lemma_swapped_multiset<T>(s: Seq<T>, a: int, b: int)
    requires
        0 <= a < s.len(),
        0 <= b < s.len(),
    ensures
        swapped(s, a, b).to_multiset() == s.to_multiset(),
        swapped(s, a, b).len() == s.len(),
{
    assert(swapped(s, a, b).to_multiset() =~= s.to_multiset());
}

/// In a heap-ordered sequence the first element is not smaller than any other.
pub proof fn lemma_root_is_max<T: Priority>(s: Seq<T>, j: int)
    requires
        heap_ordered(s),
        0 <= j < s.len(),
    ensures
        s[j].at_most(s[0]),
    decreases j,
{
    if j == 0 {
        T::lemma_reflexive(s[0]);
    } else {
        assert(edge_ok(s, j));
        lemma_root_is_max(s, parent(j));
        T::lemma_transitive(s[j], s[parent(j)], s[0]);
    }
}

/// The first element of a non-empty heap-ordered sequence is a greatest element.
pub proof fn lemma_root_is_greatest<T: Priority>(s: Seq<T>)
    requires
        heap_ordered(s),
        s.len() > 0,
    ensures
        is_greatest(s[0], s.to_multiset()),
{
    assert(s.contains(s[0]));
    assert forall|y: T| #[trigger] s.to_multiset().contains(y) implies y.at_most(s[0]) by {
        assert(s.contains(y));
        let j = choose|j: int| 0 <= j < s.len() && s[j] == y;
        lemma_root_is_max(s, j);
    }
}

/// One step of sifting up: the hole at `p` holds a value greater than its parent.
pub proof fn lemma_up_step<T: Priority>(s: Seq<T>, p: int)
    requires
        0 < p < s.len(),
        ordered_except(s, p),
        bridged(s, p),
        !s[p].at_most(s[parent(p)]),
    ensures
        ordered_except(swapped(s, p, parent(p)), parent(p)),
        bridged(swapped(s, p, parent(p)), parent(p)),
{
    let q = parent(p);
    let s2 = swapped(s, p, q);
    T::lemma_total(s[p], s[q]);
    assert forall|i: int| 0 < i < s2.len() && i != q implies #[trigger] edge_ok(s2, i) by {
        if i == p {
        } else if parent(i) == p {
            assert(s[i].at_most(s[q]));
        } else if parent(i) == q {
            assert(edge_ok(s, i));
            T::lemma_transitive(s[i], s[q], s[p]);
        } else {
            assert(edge_ok(s, i));
        }
    }
    if q > 0 {
        assert forall|i: int| 0 < i < s2.len() && parent(i) == q implies #[trigger] s2[i].at_most(
            s2[parent(q)],
        ) by {
            assert(edge_ok(s, q));
            if i != p {
                assert(edge_ok(s, i));
                T::lemma_transitive(s[i], s[q], s[parent(q)]);
            }
        }
    }
}

/// Sifting up ends when the hole is at the root, or below a parent that is not smaller.
pub proof fn lemma_up_done<T: Priority>(s: Seq<T>, p: int)
    requires
        0 <= p < s.len(),
        ordered_except(s, p),
        p == 0 || s[p].at_most(s[parent(p)]),
    ensures
        heap_ordered(s),
{
    assert forall|i: int| 0 < i < s.len() implies #[trigger] edge_ok(s, i) by {
        if i != p {
            assert(edge_ok(s, i));
        }
    }
}

/// One step of walking the hole down to its greater child `c`, without comparing.
pub proof fn lemma_bottom_step<T: Priority>(s: Seq<T>, p: int, c: int)
    requires
        0 <= p < c < s.len(),
        parent(c) == p,
        ordered_off(s, p),
        bridged(s, p),
        forall|d: int| 0 < d < s.len() && parent(d) == p ==> #[trigger] s[d].at_most(s[c]),
    ensures
        ordered_off(swapped(s, p, c), c),
        bridged(swapped(s, p, c), c),
{
    let s2 = swapped(s, p, c);
    assert forall|i: int| 0 < i < s2.len() && i != c && parent(i) != c implies #[trigger] edge_ok(
        s2,
        i,
    ) by {
        if i == p {
            assert(s[c].at_most(s[parent(p)]));
        } else if parent(i) == p {
            assert(s[i].at_most(s[c]));
        } else {
            assert(edge_ok(s, i));
        }
    }
    assert forall|i: int| 0 < i < s2.len() && parent(i) == c implies #[trigger] s2[i].at_most(
        s2[parent(c)],
    ) by {
        assert(edge_ok(s, i));
    }
}

/// At a node without children, the edges that touch it reduce to the one above it.
pub proof fn lemma_bottom_done<T: Priority>(s: Seq<T>, p: int)
    requires
        0 <= p < s.len(),
        2 * p + 1 >= s.len(),
        ordered_off(s, p),
    ensures
        ordered_except(s, p),
        bridged(s, p),
{
    assert forall|i: int| 0 < i < s.len() && i != p implies #[trigger] edge_ok(s, i) by {
        assert(parent(i) != p);
    }
}

/// `s` is what popping a greatest element from `m` until it is empty hands
/// out, in that order.
pub open spec fn drains<T: Priority>(s: Seq<T>, m: Multiset<T>) -> bool
    decreases s.len(),
{
    if s.len() == 0 {
        m.len() == 0
    } else {
        is_greatest(s[0], m) && drains(s.drop_first(), m.remove(s[0]))
    }
}

/// A value handed out by a pop, followed by what popping the rest hands
/// out, is what popping the whole hands out.
pub proof fn lemma_drain_cons<T: Priority>(x: T, t: Seq<T>, m: Multiset<T>)
    requires
        is_greatest(x, m),
        drains(t, m.remove(x)),
    ensures
        drains(seq![x] + t, m),
{
    assert((seq![x] + t).drop_first() =~= t);
}

/// Popping until empty hands out values in non-increasing order, and hands
/// out exactly the values that were stored.
pub proof fn lemma_drain_sorted<T: Priority>(s: Seq<T>, m: Multiset<T>)
    requires
        drains(s, m),
    ensures
        non_increasing(s),
        s.to_multiset() == m,
    decreases s.len(),
{
    if s.len() == 0 {
        assert(s.to_multiset() =~= m);
    } else {
        let t = s.drop_first();
        let m2 = m.remove(s[0]);
        lemma_drain_sorted(t, m2);
        assert(s =~= t.insert(0, s[0]));
        assert(s.to_multiset() =~= m);
        assert forall|i: int| 0 < i < s.len() implies #[trigger] s[i].at_most(s[i - 1]) by {
            if i == 1 {
                assert(t.to_multiset().count(t[0]) > 0);
                assert(m.contains(s[1]));
            } else {
                assert(t[i - 1].at_most(t[i - 2]));
            }
        }
    }
}

/// Whatever order the values went in, popping a multiset until it is empty
/// always hands out the same sequence.
pub proof fn lemma_drain_unique<T: Priority>(a: Seq<T>, b: Seq<T>, m: Multiset<T>)
    requires
        drains(a, m),
        drains(b, m),
    ensures
        a == b,
    decreases a.len(),
{
    if a.len() == 0 {
        if b.len() > 0 {
            vstd::multiset::lemma_multiset_empty_len(m);
            assert(is_greatest(b[0], m));
            assert(m =~= Multiset::empty());
            assert(m.count(b[0]) > 0);
        }
        assert(a =~= b);
    } else {
        if b.len() == 0 {
            vstd::multiset::lemma_multiset_empty_len(m);
            assert(is_greatest(a[0], m));
            assert(m =~= Multiset::empty());
            assert(m.count(a[0]) > 0);
        } else {
            T::lemma_antisymmetric(a[0], b[0]);
            lemma_drain_unique(a.drop_first(), b.drop_first(), m.remove(a[0]));
            assert(a.len() == b.len());
            assert forall|i: int| 0 <= i < a.len() implies a[i] == b[i] by {
                if i > 0 {
                    assert(a[i] == a.drop_first()[i - 1]);
                    assert(b[i] == b.drop_first()[i - 1]);
                }
            }
            assert(a =~= b);
        }
    }
}

/// Two values popped one after the other come out in non-increasing order.
pub proof fn lemma_pops_non_increasing<T: Priority>(m: Multiset<T>, a: T, b: T)
    requires
        is_greatest(a, m),
        is_greatest(b, m.remove(a)),
    ensures
        b.at_most(a),
{
    assert(m.contains(b));
}

/// Heapifying a sequence and pushing the same values in any order give heaps
/// that pop the same values in the same order: all of them, from greatest
/// to smallest.
pub proof fn lemma_heapify_pops_like_pushes<T: Priority>(
    v: Seq<T>,
    pushed: Seq<T>,
    a: Seq<T>,
    b: Seq<T>,
)
    requires
        pushed.to_multiset() == v.to_multiset(),
        drains(a, v.to_multiset()),
        drains(b, pushed.to_multiset()),
    ensures
        a == b,
        a.len() == v.len(),
        a.to_multiset() == v.to_multiset(),
        non_increasing(a),
{
    lemma_drain_unique(a, b, v.to_multiset());
    lemma_drain_sorted(a, v.to_multiset());
    vstd::seq_lib::to_multiset_len(a);
    vstd::seq_lib::to_multiset_len(v);
}

/// After pushing `v` onto a heap holding `before`, the value `peek` returns
/// (the first element of the new heap) is not smaller than `v` nor than
/// anything held before, and is one of those values.
pub proof fn lemma_peek_after_push<T: Priority>(before: Multiset<T>, v: T, after: Seq<T>)
    requires
        heap_ordered(after),
        after.to_multiset() == before.insert(v),
    ensures
        after.len() > 0,
        v.at_most(after[0]),
        forall|x: T| #[trigger] before.contains(x) ==> x.at_most(after[0]),
        after[0] == v || before.contains(after[0]),
{
    vstd::seq_lib::to_multiset_len(after);
    lemma_root_is_greatest(after);
    assert(after.to_multiset().contains(v));
    assert forall|x: T| #[trigger] before.contains(x) implies x.at_most(after[0]) by {
        assert(after.to_multiset().contains(x));
    }
}

/// What is left of `m` after the values of `popped` are taken out, first to last.
pub open spec fn taken_out<T>(m: Multiset<T>, popped: Seq<T>) -> Multiset<T>
    decreases popped.len(),
{
    if popped.len() == 0 {
        m
    } else {
        taken_out(m.remove(popped[0]), popped.drop_first())
    }
}

/// A heap filled by `n` pushes and then emptied by `k` pops, each handing out
/// a value it holds, holds `n - k` values.
pub proof fn lemma_len_after_pushes_and_pops<T>(pushed: Seq<T>, popped: Seq<T>, m: Multiset<T>)
    requires
        m == pushed.to_multiset(),
        popped.len() <= pushed.len(),
        forall|j: int|
            0 <= j < popped.len() ==> #[trigger] taken_out(m, popped.take(j)).contains(popped[j]),
    ensures
        taken_out(m, popped).len() == pushed.len() - popped.len(),
{
    vstd::seq_lib::to_multiset_len(pushed);
    lemma_taken_out_len(m, popped);
}

proof fn lemma_taken_out_len<T>(m: Multiset<T>, popped: Seq<T>)
    requires
        forall|j: int|
            0 <= j < popped.len() ==> #[trigger] taken_out(m, popped.take(j)).contains(popped[j]),
    ensures
        taken_out(m, popped).len() + popped.len() == m.len(),
    decreases popped.len(),
{
    if popped.len() > 0 {
        assert(popped.take(0) =~= Seq::<T>::empty());
        let m2 = m.remove(popped[0]);
        let rest = popped.drop_first();
        assert forall|j: int| 0 <= j < rest.len() implies #[trigger] taken_out(m2, rest.take(j)).contains(
            rest[j],
        ) by {
            assert(popped.take(j + 1).drop_first() =~= rest.take(j));
            assert(popped.take(j + 1)[0] == popped[0]);
            assert(taken_out(m, popped.take(j + 1)) == taken_out(m2, rest.take(j)));
            assert(popped[j + 1] == rest[j]);
        }
        lemma_taken_out_len(m2, rest);
        assert(taken_out(m, popped.take(0)) == m);
        assert(m.contains(popped[0]));
        assert(m =~= m2.insert(popped[0]));
        vstd::multiset::lemma_insert_len(m2, popped[0]);
        assert(taken_out(m, popped) == taken_out(m2, rest));
    }
}

} // verus!
