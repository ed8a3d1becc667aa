//! The two sifting passes of a heap stored level by level, written once over
//! a vector and the relocation cursor, with what they move and what they keep.

use vstd::prelude::*;
use crate::order::Priority;
use crate::memcursor::MemCursor;
use crate::heap_spec::{
    parent, edge_ok, heap_ordered, ordered_except, ordered_from, bridged, swapped, lemma_swapped_multiset,
    lemma_up_step, lemma_up_done,
};

verus! {

broadcast use {vstd::seq_lib::group_to_multiset_ensures, vstd::multiset::group_multiset_axioms};

/// `i` lies in the subtree rooted at `a`: following parents from `i` reaches `a`.
pub open spec fn desc(a: int, i: int) -> bool
    decreases i,
{
    if i == a {
        true
    } else if i <= a || i <= 0 {
        false
    } else {
        desc(a, parent(i))
    }
}

/// `i` lies on the way up from `pos` to `top`, both ends included.
pub open spec fn on_path(top: int, i: int, pos: int) -> bool {
    desc(top, i) && desc(i, pos)
}

pub proof fn lemma_desc_le(a: int, i: int)
    requires
        desc(a, i),
    ensures
        a <= i,
    decreases i,
{
    if i != a {
        lemma_desc_le(a, parent(i));
    }
}

pub proof fn lemma_desc_trans(a: int, b: int, c: int)
    requires
        desc(a, b),
        desc(b, c),
    ensures
        desc(a, c),
    decreases c,
{
    if c != b {
        lemma_desc_trans(a, b, parent(c));
    }
}

pub proof fn lemma_desc_comparable(a: int, b: int, x: int)
    requires
        desc(a, x),
        desc(b, x),
    ensures
        desc(a, b) || desc(b, a),
    decreases x,
{
    if x != a && x != b {
        lemma_desc_comparable(a, b, parent(x));
    }
}

pub proof fn lemma_desc_parent(a: int)
    requires
        a > 0,
    ensures
        desc(parent(a), a),
{
    assert(desc(parent(a), parent(a)));
}

/// Every index from 0 on lies in the subtree of the root.
pub proof fn lemma_desc_root(i: int)
    requires
        i >= 0,
    ensures
        desc(0, i),
    decreases i,
{
    if i > 0 {
        lemma_desc_root(parent(i));
    }
}

/// Moving the top of a path one level up adds exactly that parent to it.
proof fn lemma_path_step(p: int, pos: int, i: int)
    requires
        p > 0,
        desc(p, pos),
    ensures
        on_path(parent(p), i, pos) == (i == parent(p) || on_path(p, i, pos)),
{
    let up = parent(p);
    lemma_desc_parent(p);
    lemma_desc_trans(up, p, pos);
    if on_path(p, i, pos) {
        lemma_desc_trans(up, p, i);
    }
    if on_path(up, i, pos) && i != up {
        lemma_desc_comparable(i, p, pos);
        if desc(i, p) && i != p {
            lemma_desc_le(i, p);
            lemma_desc_le(i, up);
            lemma_desc_le(up, i);
        }
    }
}

/// Moves the value at `pos` up while its parent is smaller. Returns where it
/// came to rest; the values on the way from there down to `pos` each move one
/// level down, and nothing else moves.
pub fn sift_up<T: Priority>(data: Vec<T>, pos: usize) -> (r: (Vec<T>, usize))
    requires
        pos < data@.len(),
        ordered_except(data@, pos as int),
        bridged(data@, pos as int),
    ensures
        heap_ordered(r.0@),
        r.0@.to_multiset() == data@.to_multiset(),
        r.0@.len() == data@.len(),
        r.1 <= pos,
        desc(r.1 as int, pos as int),
        r.0@[r.1 as int] == data@[pos as int],
        forall|i: int|
            0 <= i < data@.len() && on_path(r.1 as int, i, pos as int) && i != r.1 ==> #[trigger] r.0@[i]
                == data@[parent(i)],
        forall|i: int|
            0 <= i < data@.len() && !on_path(r.1 as int, i, pos as int) ==> #[trigger] r.0@[i] == data@[i],
{
    let ghost d0 = data@;
    let mut mc = MemCursor::new(data, pos);
    let ghost n = mc.restored().len();
    let ghost m0 = mc.restored().to_multiset();
    loop
        invariant
            mc.wf(),
            mc.restored().len() == n,
            n == d0.len(),
            mc.restored().to_multiset() == m0,
            m0 == d0.to_multiset(),
            mc.hole() <= pos < n,
            mc.held() == d0[pos as int],
            desc(mc.hole() as int, pos as int),
            ordered_except(mc.restored(), mc.hole() as int),
            bridged(mc.restored(), mc.hole() as int),
            forall|i: int|
                0 <= i < n && on_path(mc.hole() as int, i, pos as int) && i != mc.hole() ==> #[trigger] mc.restored()[i]
                    == d0[parent(i)],
            forall|i: int|
                0 <= i < n && !on_path(mc.hole() as int, i, pos as int) ==> #[trigger] mc.restored()[i] == d0[i],
        ensures
            mc.wf(),
            mc.restored().len() == n,
            mc.restored().to_multiset() == m0,
            mc.hole() <= pos,
            mc.held() == d0[pos as int],
            desc(mc.hole() as int, pos as int),
            heap_ordered(mc.restored()),
            forall|i: int|
                0 <= i < n && on_path(mc.hole() as int, i, pos as int) && i != mc.hole() ==> #[trigger] mc.restored()[i]
                    == d0[parent(i)],
            forall|i: int|
                0 <= i < n && !on_path(mc.hole() as int, i, pos as int) ==> #[trigger] mc.restored()[i] == d0[i],
        decreases mc.hole(),
    {
        let p = mc.pos();
        if p == 0 {
            proof {
                lemma_up_done(mc.restored(), 0);
            }
            break;
        }
        let up = (p - 1) / 2;
        if mc.element().no_greater(mc.get(up)) {
            proof {
                lemma_up_done(mc.restored(), p as int);
            }
            break;
        }
        let ghost s = mc.restored();
        proof {
            lemma_up_step(s, p as int);
            lemma_swapped_multiset(s, p as int, up as int);
            lemma_desc_le(p as int, pos as int);
            assert(!on_path(p as int, up as int, pos as int)) by {
                if desc(p as int, up as int) {
                    lemma_desc_le(p as int, up as int);
                }
            }
        }
        mc.move_to(up);
        proof {
            let s2 = mc.restored();
            assert forall|i: int| 0 <= i < n && on_path(up as int, i, pos as int) && i != up implies #[trigger] s2[i]
                == d0[parent(i)] by {
                lemma_path_step(p as int, pos as int, i);
                if i == p {
                } else {
                    assert(on_path(p as int, i, pos as int));
                }
            }
            assert forall|i: int| 0 <= i < n && !on_path(up as int, i, pos as int) implies #[trigger] s2[i]
                == d0[i] by {
                lemma_path_step(p as int, pos as int, i);
                lemma_path_step(p as int, pos as int, p as int);
                assert(desc(p as int, p as int));
            }
            lemma_path_step(p as int, pos as int, up as int);
        }
    }
    let r = mc.pos();
    (mc.release(), r)
}

/// Every edge below `end` whose upper end lies in the subtree of `pos`, other
/// than those at `skip`, is in order.
pub open spec fn subtree_ordered_but<T: Priority>(s: Seq<T>, pos: int, end: int, skip: int) -> bool {
    forall|i: int|
        0 < i < end && desc(pos, parent(i)) && parent(i) != skip ==> #[trigger] edge_ok(s, i)
}

/// Every edge below `end` whose upper end lies in the subtree of `pos` is in order.
pub open spec fn subtree_ordered<T: Priority>(s: Seq<T>, pos: int, end: int) -> bool {
    forall|i: int| 0 < i < end && desc(pos, parent(i)) ==> #[trigger] edge_ok(s, i)
}

/// The children of `p` below `end` are not greater than the element at `p`.
pub open spec fn children_ordered_below<T: Priority>(s: Seq<T>, p: int, end: int) -> bool {
    forall|i: int| 0 < i < end && parent(i) == p ==> #[trigger] edge_ok(s, i)
}

proof fn lemma_sub_down_step<T: Priority>(s: Seq<T>, pos: int, end: int, p: int, c: int)
    requires
        0 <= pos <= p < c < end <= s.len(),
        parent(c) == p,
        desc(pos, p),
        subtree_ordered_but(s, pos, end, p),
        p != pos ==> forall|i: int|
            0 < i < end && parent(i) == p ==> #[trigger] s[i].at_most(s[parent(p)]),
        forall|d: int| 0 < d < end && parent(d) == p ==> #[trigger] s[d].at_most(s[c]),
        s[p].at_most(s[c]),
    ensures
        desc(pos, c),
        subtree_ordered_but(swapped(s, p, c), pos, end, c),
        forall|i: int|
            0 < i < end && parent(i) == c ==> #[trigger] swapped(s, p, c)[i].at_most(
                swapped(s, p, c)[parent(c)],
            ),
{
    let s2 = swapped(s, p, c);
    assert(desc(pos, c));
    assert forall|i: int| 0 < i < end && desc(pos, parent(i)) && parent(i) != c implies #[trigger] edge_ok(
        s2,
        i,
    ) by {
        if i == p {
            if p == pos {
                lemma_desc_le(pos, parent(p));
            }
            assert(s[c].at_most(s[parent(p)]));
        } else if i == c {
        } else if parent(i) == p {
            assert(s[i].at_most(s[c]));
        } else {
            assert(edge_ok(s, i));
        }
    }
    assert forall|i: int| 0 < i < end && parent(i) == c implies #[trigger] s2[i].at_most(
        s2[parent(c)],
    ) by {
        assert(edge_ok(s, i));
    }
}

proof fn lemma_sub_down_done<T: Priority>(s: Seq<T>, pos: int, end: int, p: int)
    requires
        0 <= pos <= p < end <= s.len(),
        subtree_ordered_but(s, pos, end, p),
        forall|d: int| 0 < d < end && parent(d) == p ==> #[trigger] s[d].at_most(s[p]),
    ensures
        subtree_ordered(s, pos, end),
{
    assert forall|i: int| 0 < i < end && desc(pos, parent(i)) implies #[trigger] edge_ok(s, i) by {
        if parent(i) == p {
            assert(s[i].at_most(s[p]));
        }
    }
}

/// Takes the value at `pos` aside and moves the hole down through the
/// subtree of `pos`, among the slots below `end`, while the greater child is
/// greater than that value (or not smaller, with `ties_descend`); then writes
/// the value into the hole. Only slots of that subtree below `end` move.
pub fn sift_down_in<T: Priority>(data: Vec<T>, pos: usize, end: usize, ties_descend: bool) -> (r: Vec<T>)
    requires
        pos < end <= data@.len(),
        subtree_ordered_but(data@, pos as int, end as int, pos as int),
    ensures
        r@.len() == data@.len(),
        r@.to_multiset() == data@.to_multiset(),
        subtree_ordered(r@, pos as int, end as int),
        forall|i: int|
            0 <= i < data@.len() && (i >= end || !desc(pos as int, i)) ==> #[trigger] r@[i] == data@[i],
        children_ordered_below(data@, pos as int, end as int) ==> r@ == data@,
{
    let ghost d0 = data@;
    let mut mc = MemCursor::new(data, pos);
    let ghost n = d0.len();
    let ghost m0 = d0.to_multiset();
    loop
        invariant
            mc.wf(),
            mc.restored().len() == n,
            n == d0.len(),
            end <= n,
            m0 == d0.to_multiset(),
            mc.restored().to_multiset() == m0,
            pos <= mc.hole() < end,
            desc(pos as int, mc.hole() as int),
            subtree_ordered_but(d0, pos as int, end as int, pos as int),
            subtree_ordered_but(mc.restored(), pos as int, end as int, mc.hole() as int),
            mc.hole() != pos ==> forall|i: int|
                0 < i < end && parent(i) == mc.hole() ==> #[trigger] mc.restored()[i].at_most(
                    mc.restored()[parent(mc.hole() as int)],
                ),
            forall|i: int|
                0 <= i < n && (i >= end || !desc(pos as int, i)) ==> #[trigger] mc.restored()[i] == d0[i],
            children_ordered_below(d0, pos as int, end as int) ==> mc.restored() == d0,
        ensures
            mc.wf(),
            mc.restored().len() == n,
            mc.restored().to_multiset() == m0,
            subtree_ordered(mc.restored(), pos as int, end as int),
            forall|i: int|
                0 <= i < n && (i >= end || !desc(pos as int, i)) ==> #[trigger] mc.restored()[i] == d0[i],
            children_ordered_below(d0, pos as int, end as int) ==> mc.restored() == d0,
        decreases end - mc.hole(),
    {
        let p = mc.pos();
        if p >= end / 2 {
            proof {
                lemma_sub_down_done(mc.restored(), pos as int, end as int, p as int);
            }
            break;
        }
        let mut child = 2 * p + 1;
        let right = child + 1;
        if right < end && mc.get(child).no_greater(mc.get(right)) {
            child = right;
        }
        let ghost s = mc.restored();
        proof {
            T::lemma_reflexive(s[child as int]);
            T::lemma_total(s[p as int], s[child as int]);
            if right < end {
                T::lemma_total(s[right as int], s[child as int]);
            }
            assert forall|d: int| 0 < d < end && parent(d) == p implies #[trigger] s[d].at_most(
                s[child as int],
            ) by {
                assert(d == 2 * p + 1 || d == 2 * p + 2);
            }
        }
        let stop = if ties_descend {
            !mc.element().no_greater(mc.get(child))
        } else {
            mc.get(child).no_greater(mc.element())
        };
        if stop {
            proof {
                assert forall|d: int| 0 < d < end && parent(d) == p implies #[trigger] s[d].at_most(
                    s[p as int],
                ) by {
                    T::lemma_transitive(s[d], s[child as int], s[p as int]);
                }
                lemma_sub_down_done(s, pos as int, end as int, p as int);
            }
            break;
        }
        proof {
            lemma_sub_down_step(s, pos as int, end as int, p as int, child as int);
            lemma_swapped_multiset(s, p as int, child as int);
            if children_ordered_below(d0, pos as int, end as int) {
                assert(parent(child as int) == p);
                assert(edge_ok(d0, child as int));
                T::lemma_antisymmetric(s[p as int], s[child as int]);
                assert(swapped(s, p as int, child as int) =~= s);
            }
        }
        mc.move_to(child);
    }
    mc.release()
}

/// Restores the heap order over the whole vector, sifting down from the
/// last inner node back to the root; a vector already in heap order comes
/// back unchanged.
pub fn rebuild_vec<T: Priority>(data: Vec<T>, ties_descend: bool) -> (r: Vec<T>)
    ensures
        heap_ordered(r@),
        r@.to_multiset() == data@.to_multiset(),
        r@.len() == data@.len(),
        heap_ordered(data@) ==> r@ == data@,
{
    let ghost d0 = data@;
    let mut data = data;
    let len = data.len();
    let mut n = len / 2;
    assert forall|i: int| 0 < i < len && parent(i) >= n implies #[trigger] edge_ok(data@, i) by {
    }
    while n > 0
        invariant
            n <= len / 2,
            data@.len() == len,
            ordered_from(data@, n as int),
            data@.to_multiset() == d0.to_multiset(),
            heap_ordered(d0) ==> data@ == d0,
        decreases n,
    {
        n -= 1;
        let ghost s = data@;
        proof {
            assert forall|i: int|
                0 < i < len && desc(n as int, parent(i)) && parent(i) != n implies #[trigger] edge_ok(
                s,
                i,
            ) by {
                lemma_desc_le(n as int, parent(i));
            }
            if heap_ordered(d0) {
                assert forall|i: int| 0 < i < len && parent(i) == n implies #[trigger] edge_ok(s, i) by {}
            }
        }
        data = sift_down_in(data, n, len, ties_descend);
        proof {
            assert forall|i: int| 0 < i < len && parent(i) >= n implies #[trigger] edge_ok(data@, i) by {
                if !desc(n as int, parent(i)) {
                    if desc(n as int, i) {
                        assert(i != n);
                    }
                    assert(edge_ok(s, i));
                }
            }
        }
    }
    assert forall|i: int| 0 < i < len implies #[trigger] edge_ok(data@, i) by {
        assert(parent(i) >= 0);
    }
    data
}

} // verus!
