//! Nodes of a binomial heap: each node roots a heap-ordered tree, and the
//! roots of a heap are chained through their `sibling` links.

use vstd::prelude::*;
use vstd::multiset::Multiset;
use crate::order::Priority;

verus! {

/// A node of a binomial heap.
#[derive(Debug)]
pub struct Node<T> {
    /// The stored value.
    pub item: T,
    /// The order of the tree rooted here, which holds 2^order values.
    pub order: usize,
    /// The next root (in a root chain) or the next child (in a child chain).
    pub sibling: Option<Box<Node<T>>>,
    /// The first child.
    pub child: Option<Box<Node<T>>>,
}

/// The chain that starts at `n` and follows `sibling` links.
pub open spec fn chain<T>(n: Node<T>) -> Seq<Node<T>>
    decreases n,
{
    match n.sibling {
        None => seq![n],
        Some(s) => seq![n] + chain(*s),
    }
}

/// What a node holds apart from its sibling link.
pub open spec fn entry<T>(n: Node<T>) -> (usize, T, Option<Box<Node<T>>>) {
    (n.order, n.item, n.child)
}

/// The entries along the chain that starts at `n`.
pub open spec fn entries<T>(n: Node<T>) -> Seq<(usize, T, Option<Box<Node<T>>>)> {
    chain(n).map_values(|m: Node<T>| entry(m))
}

/// Two chains merged: the head with the smaller order (the first one on a
/// tie) comes first, followed by the rest of its chain merged with the other.
pub open spec fn merged<T>(
    xs: Seq<(usize, T, Option<Box<Node<T>>>)>,
    ys: Seq<(usize, T, Option<Box<Node<T>>>)>,
) -> Seq<(usize, T, Option<Box<Node<T>>>)>
    decreases xs.len() + ys.len(),
{
    if xs.len() == 0 {
        ys
    } else if ys.len() == 0 {
        xs
    } else if xs[0].0 > ys[0].0 {
        seq![ys[0]] + merged(ys.drop_first(), xs)
    } else {
        seq![xs[0]] + merged(xs.drop_first(), ys)
    }
}

/// The orders along a sequence of entries do not decrease.
pub open spec fn orders_sorted<T>(xs: Seq<(usize, T, Option<Box<Node<T>>>)>) -> bool {
    forall|i: int, j: int| 0 <= i < j < xs.len() ==> #[trigger] xs[i].0 <= #[trigger] xs[j].0
}

/// Merging keeps every entry, and keeps sorted chains sorted.
pub proof fn lemma_merged<T>(
    xs: Seq<(usize, T, Option<Box<Node<T>>>)>,
    ys: Seq<(usize, T, Option<Box<Node<T>>>)>,
)
    ensures
        merged(xs, ys).to_multiset() == xs.to_multiset().add(ys.to_multiset()),
        merged(xs, ys).len() == xs.len() + ys.len(),
        orders_sorted(xs) && orders_sorted(ys) ==> orders_sorted(merged(xs, ys)),
        merged(xs, ys).len() > 0 && xs.len() > 0 && ys.len() > 0 ==> merged(xs, ys)[0].0 == if xs[0].0 > ys[0].0 { ys[0].0 } else { xs[0].0 },
    decreases xs.len() + ys.len(),
{
    broadcast use {vstd::seq_lib::group_to_multiset_ensures, vstd::multiset::group_multiset_axioms};

    if xs.len() == 0 {
        assert(xs.to_multiset() =~= Multiset::empty());
        assert(xs.to_multiset().add(ys.to_multiset()) =~= ys.to_multiset());
    } else if ys.len() == 0 {
        assert(ys.to_multiset() =~= Multiset::empty());
        assert(xs.to_multiset().add(ys.to_multiset()) =~= xs.to_multiset());
    } else if xs[0].0 > ys[0].0 {
        let rest = ys.drop_first();
        lemma_merged(rest, xs);
        let m = merged(rest, xs);
        assert(ys =~= rest.insert(0, ys[0]));
        assert((seq![ys[0]] + m) =~= m.insert(0, ys[0]));
        assert(merged(xs, ys).to_multiset() =~= xs.to_multiset().add(ys.to_multiset()));
        if orders_sorted(xs) && orders_sorted(ys) {
            assert forall|i: int, j: int| 0 <= i < j < merged(xs, ys).len() implies #[trigger] merged(xs, ys)[i].0 <= #[trigger] merged(xs, ys)[j].0 by {
                if i == 0 {
                    assert(m.to_multiset().count(m[j - 1]) > 0);
                    assert(rest.to_multiset().add(xs.to_multiset()).count(m[j - 1]) > 0);
                    if rest.to_multiset().count(m[j - 1]) > 0 {
                        assert(rest.contains(m[j - 1]));
                        let k = choose|k: int| 0 <= k < rest.len() && rest[k] == m[j - 1];
                        assert(ys[0].0 <= ys[k + 1].0);
                    } else {
                        assert(xs.contains(m[j - 1]));
                        let k = choose|k: int| 0 <= k < xs.len() && xs[k] == m[j - 1];
                        if k > 0 {
                            assert(xs[0].0 <= xs[k].0);
                        }
                    }
                } else {
                    assert(m[i - 1].0 <= m[j - 1].0);
                }
            }
        }
    } else {
        let rest = xs.drop_first();
        lemma_merged(rest, ys);
        let m = merged(rest, ys);
        assert(xs =~= rest.insert(0, xs[0]));
        assert((seq![xs[0]] + m) =~= m.insert(0, xs[0]));
        assert(merged(xs, ys).to_multiset() =~= xs.to_multiset().add(ys.to_multiset()));
        if orders_sorted(xs) && orders_sorted(ys) {
            assert forall|i: int, j: int| 0 <= i < j < merged(xs, ys).len() implies #[trigger] merged(xs, ys)[i].0 <= #[trigger] merged(xs, ys)[j].0 by {
                if i == 0 {
                    assert(m.to_multiset().count(m[j - 1]) > 0);
                    assert(rest.to_multiset().add(ys.to_multiset()).count(m[j - 1]) > 0);
                    if rest.to_multiset().count(m[j - 1]) > 0 {
                        assert(rest.contains(m[j - 1]));
                        let k = choose|k: int| 0 <= k < rest.len() && rest[k] == m[j - 1];
                        assert(xs[0].0 <= xs[k + 1].0);
                    } else {
                        assert(ys.contains(m[j - 1]));
                        let k = choose|k: int| 0 <= k < ys.len() && ys[k] == m[j - 1];
                        if k > 0 {
                            assert(ys[0].0 <= ys[k].0);
                        }
                    }
                } else {
                    assert(m[i - 1].0 <= m[j - 1].0);
                }
            }
        }
    }
}

/// The chain reached from an optional link.
pub open spec fn link_chain<T>(l: Option<Box<Node<T>>>) -> Seq<Node<T>> {
    match l {
        None => Seq::empty(),
        Some(n) => chain(*n),
    }
}

proof fn lemma_chain_nonempty<T>(n: Node<T>)
    ensures
        chain(n).len() >= 1,
        chain(n)[0] == n,
        chain(n).drop_first() == link_chain(n.sibling),
    decreases n,
{
    match n.sibling {
        None => {
            assert(chain(n).drop_first() =~= Seq::<Node<T>>::empty());
        },
        Some(s) => {
            assert((seq![n] + chain(*s)).drop_first() =~= chain(*s));
        },
    }
}

impl<T> Node<T> {
    /// A node without links holding `item` at `order`.
    pub fn with_order(item: T, order: usize) -> (r: Self)
        ensures
            r.item == item,
            r.order == order,
            r.sibling is None,
            r.child is None,
    {
        Node { item, order, sibling: None, child: None }
    }

    /// Links `sibling` as the next node.
    pub fn set_sibling(&mut self, sibling: Node<T>)
        ensures
            final(self).item == old(self).item,
            final(self).order == old(self).order,
            final(self).child == old(self).child,
            final(self).sibling == Some(Box::new(sibling)),
    {
        self.sibling = Some(Box::new(sibling))
    }

    /// Links `child` as the first child.
    pub fn set_child(&mut self, child: Node<T>)
        ensures
            final(self).item == old(self).item,
            final(self).order == old(self).order,
            final(self).sibling == old(self).sibling,
            final(self).child == Some(Box::new(child)),
    {
        self.child = Some(Box::new(child))
    }
}

/// A greatest item among the roots chained from `root`, or `None` when
/// there is no root. Of equal items, the first one in the chain is returned.
pub fn peek<T: Priority>(root: &Option<Box<Node<T>>>) -> (r: Option<&T>)
    ensures
        (r is None) == (root is None),
        r matches Some(x) ==> exists|k: int|
            0 <= k < link_chain(*root).len() && link_chain(*root)[k].item == *x,
        r matches Some(x) ==> forall|k: int|
            0 <= k < link_chain(*root).len() ==> (#[trigger] link_chain(*root)[k]).item.at_most(*x),
{
    match root {
        None => None,
        Some(first) => {
            let mut max: &Node<T> = &**first;
            let mut cur: &Option<Box<Node<T>>> = &first.sibling;
            let ghost whole = link_chain(*root);
            proof {
                lemma_chain_nonempty(**first);
                T::lemma_reflexive(max.item);
            }
            let ghost mut seen: int = 1;
            while cur.is_some()
                invariant
                    0 < seen <= whole.len(),
                    link_chain(*cur) == whole.subrange(seen, whole.len() as int),
                    exists|k: int| 0 <= k < seen && whole[k].item == max.item,
                    forall|k: int| 0 <= k < seen ==> (#[trigger] whole[k]).item.at_most(max.item),
                decreases whole.len() - seen,
            {
                let node: &Node<T> = match cur {
                    Some(n) => &**n,
                    None => max,
                };
                proof {
                    lemma_chain_nonempty(*node);
                    assert(whole[seen] == *node);
                }
                if !node.item.no_greater(&max.item) {
                    proof {
                        T::lemma_total(node.item, max.item);
                        assert forall|k: int| 0 <= k < seen + 1 implies (#[trigger] whole[k]).item.at_most(
                            node.item,
                        ) by {
                            if k < seen {
                                T::lemma_transitive(whole[k].item, max.item, node.item);
                            } else {
                                T::lemma_reflexive(node.item);
                            }
                        }
                    }
                    max = node;
                }
                cur = &node.sibling;
                proof {
                    assert(link_chain(*cur) =~= whole.subrange(seen + 1, whole.len() as int));
                    seen = seen + 1;
                }
            }
            proof {
                assert(seen == whole.len());
            }
            Some(&max.item)
        },
    }
}

/// Merges the chain `b` into the chain `a`, keeping nodes in order of
/// `order` when both chains are.
pub fn merge<T>(a: &mut Box<Node<T>>, b: Box<Node<T>>)
    ensures
        entries(**final(a)) == merged(entries(**old(a)), entries(*b)),
        entries(**final(a)).to_multiset() == entries(**old(a)).to_multiset().add(
            entries(*b).to_multiset(),
        ),
        orders_sorted(entries(**old(a))) && orders_sorted(entries(*b)) ==> orders_sorted(
            entries(**final(a)),
        ),
    decreases chain(**old(a)).len() + chain(*b).len(),
{
    let mut b = b;
    proof {
        lemma_chain_nonempty(**a);
        lemma_chain_nonempty(*b);
    }
    let ghost ea = entries(**a);
    let ghost eb = entries(*b);
    proof {
        lemma_merged(ea, eb);
    }
    if a.order > b.order {
        core::mem::swap(a, &mut b);
    }
    let ghost first = **a;
    let ghost other = *b;
    proof {
        lemma_chain_nonempty(first);
        lemma_chain_nonempty(other);
        assert(entries(first)[0] == entry(first));
        assert(entries(first).drop_first() =~= link_chain(first.sibling).map_values(|m: Node<T>| entry(m)));
    }
    let sib = a.sibling.take();
    match sib {
        None => {
            a.sibling = Some(b);
            proof {
                lemma_chain_nonempty(**a);
                assert(entries(**a) =~= seq![entry(first)] + entries(other));
                assert(entries(first) =~= seq![entry(first)]);
                if ea[0].0 > eb[0].0 {
                    assert(entries(first) == eb);
                    assert(merged(eb.drop_first(), ea) == ea);
                } else {
                    assert(entries(first) == ea);
                    assert(merged(ea.drop_first(), eb) == eb);
                }
            }
        },
        Some(mut s) => {
            merge(&mut s, b);
            a.sibling = Some(s);
        },
    }
}

/// The items of the trees reached from `l`, following children and siblings.
pub open spec fn forest_items<T>(l: Option<Box<Node<T>>>) -> Multiset<T>
    decreases l,
{
    match l {
        None => Multiset::empty(),
        Some(n) => forest_items(n.child).insert(n.item).add(forest_items(n.sibling)),
    }
}

/// The items of the tree rooted at `n`: its own and those below it.
pub open spec fn tree_items<T>(n: Node<T>) -> Multiset<T> {
    forest_items(n.child).insert(n.item)
}

/// No item below `n` is greater than the item of `n`, and the same holds at
/// every node below it.
pub open spec fn node_ok<T: Priority>(n: Node<T>) -> bool {
    &&& forall|x: T| #[trigger] forest_items(n.child).contains(x) ==> x.at_most(n.item)
    &&& heap_ok(n.child)
}

/// Every tree reached from `l` is heap-ordered.
pub open spec fn heap_ok<T: Priority>(l: Option<Box<Node<T>>>) -> bool
    decreases l,
{
    match l {
        None => true,
        Some(n) => {
            &&& forall|x: T| #[trigger] forest_items(n.child).contains(x) ==> x.at_most(n.item)
            &&& heap_ok(n.child)
            &&& heap_ok(n.sibling)
        },
    }
}

/// No order along the chain from `n` comes near `usize::MAX`, even after
/// every tree of the chain has been joined into one.
pub open spec fn orders_fit<T>(n: Node<T>) -> bool {
    forall|i: int| 0 <= i < chain(n).len() ==> #[trigger] chain(n)[i].order + chain(n).len() < usize::MAX
}

/// Makes `b` the first child of `a`, whose order grows by one.
fn link<T: Priority>(a: &mut Node<T>, b: Box<Node<T>>)
    requires
        old(a).order == b.order,
        b.sibling is None,
        b.item.at_most(old(a).item),
        old(a).order < usize::MAX,
    ensures
        final(a).item == old(a).item,
        final(a).order == old(a).order + 1,
        final(a).sibling == old(a).sibling,
        final(a).child == Some(
            Box::new((Node { item: b.item, order: b.order, sibling: old(a).child, child: b.child })),
        ),
        tree_items(*final(a)) == tree_items(*old(a)).add(tree_items(*b)),
        node_ok(*old(a)) && node_ok(*b) ==> node_ok(*final(a)),
{
    broadcast use vstd::multiset::group_multiset_axioms;

    let ghost a0 = *a;
    let ghost b0 = *b;
    let mut b = b;
    b.sibling = a.child.take();
    let ghost b1 = *b;
    a.child = Some(b);
    a.order += 1;
    proof {
        assert(forest_items(a.child) =~= tree_items(b1).add(forest_items(a0.child)));
        assert(tree_items(b1) =~= tree_items(b0));
        assert(tree_items(*a) =~= tree_items(a0).add(tree_items(b0)));
        if node_ok(a0) && node_ok(b0) {
            assert forall|x: T| #[trigger] forest_items(a.child).contains(x) implies x.at_most(
                a.item,
            ) by {
                if forest_items(a0.child).contains(x) {
                } else if x == b0.item {
                } else {
                    assert(forest_items(b0.child).contains(x));
                    T::lemma_transitive(x, b0.item, a0.item);
                }
            }
        }
    }
}

proof fn lemma_joined_fits<T>(a0: Node<T>, s0: Node<T>, j: Node<T>)
    requires
        a0.sibling == Some(Box::new(s0)),
        orders_fit(a0),
        a0.order == s0.order,
        j.order == a0.order + 1,
        j.sibling == s0.sibling,
    ensures
        orders_fit(j),
{
    lemma_chain_nonempty(a0);
    lemma_chain_nonempty(s0);
    lemma_chain_nonempty(j);
    assert(chain(a0)[0] == a0);
    assert(chain(j).len() + 1 == chain(a0).len());
    assert forall|i: int| 0 <= i < chain(j).len() implies #[trigger] chain(j)[i].order + chain(
        j,
    ).len() < usize::MAX by {
        if i > 0 {
            assert(chain(j)[i] == chain(a0)[i + 1]);
        }
    }
}

/// Two roots of equal order joined into one tree: the one with the greater
/// item on top (`x` on a tie), its order one more, and the other one as its
/// first child, ahead of the top's former children.
pub open spec fn joined<T: Priority>(x: Node<T>, y: Node<T>) -> Node<T> {
    if y.item.at_most(x.item) {
        Node {
            item: x.item,
            order: (x.order + 1) as usize,
            sibling: None,
            child: Some(Box::new((Node { item: y.item, order: y.order, sibling: x.child, child: y.child }))),
        }
    } else {
        Node {
            item: y.item,
            order: (y.order + 1) as usize,
            sibling: None,
            child: Some(Box::new((Node { item: x.item, order: x.order, sibling: y.child, child: x.child }))),
        }
    }
}

/// The orders along the chain that starts at `n`.
pub open spec fn orders<T>(n: Node<T>) -> Seq<int> {
    chain(n).map_values(|m: Node<T>| m.order as int)
}

/// Orders that do not decrease, with no order three times in a row except
/// at the head: the shape of two valid root chains merged, and of such a
/// chain once its head has been joined.
pub open spec fn mergeable_orders(o: Seq<int>) -> bool {
    &&& forall|i: int, j: int| 0 <= i < j < o.len() ==> o[i] <= o[j]
    &&& forall|i: int| 1 <= i && i + 2 < o.len() ==> #[trigger] o[i] != o[i + 2]
}

/// Each order is greater than the one before it.
pub open spec fn strictly_increasing(o: Seq<int>) -> bool {
    forall|i: int, j: int| 0 <= i < j < o.len() ==> o[i] < o[j]
}

/// What joining trees does to the orders of a chain: the head's order does
/// not drop; a chain of mergeable shape ends strictly increasing; and where
/// the first two orders are equal and not followed by a third equal one, the
/// head's order grows.
pub open spec fn coalesced_orders(before: Seq<int>, after: Seq<int>) -> bool {
    &&& after.len() >= 1
    &&& after[0] >= before[0]
    &&& mergeable_orders(before) ==> strictly_increasing(after)
    &&& mergeable_orders(before) && before.len() >= 2 && before[0] == before[1] && (before.len() < 3
        || before[2] != before[0]) ==> after[0] > before[0]
}

proof fn lemma_orders_unfold<T>(n: Node<T>)
    ensures
        orders(n).len() == chain(n).len(),
        orders(n).len() >= 1,
        orders(n)[0] == n.order as int,
        n.sibling is None ==> orders(n).len() == 1,
        orders(n).drop_first() == link_chain(n.sibling).map_values(|m: Node<T>| m.order as int),
        n.sibling matches Some(sb) ==> orders(n).drop_first() == orders(*sb),
{
    lemma_chain_nonempty(n);
    assert(orders(n).drop_first() =~= link_chain(n.sibling).map_values(|m: Node<T>| m.order as int));
}

proof fn lemma_orders_single(o: Seq<int>)
    requires
        o.len() == 1,
    ensures
        coalesced_orders(o, o),
{
}

proof fn lemma_orders_keep(o: Seq<int>, of: Seq<int>, os1: Seq<int>)
    requires
        o.len() >= 2,
        coalesced_orders(o.drop_first(), os1),
        of.len() == os1.len() + 1,
        of[0] == o[0],
        of.drop_first() == os1,
        o[0] != o[1] || (o.len() >= 3 && o[2] == o[1]),
    ensures
        coalesced_orders(o, of),
{
    let os = o.drop_first();
    if mergeable_orders(o) {
        assert forall|i: int, j: int| 0 <= i < j < os.len() implies os[i] <= os[j] by {
            assert(os[i] == o[i + 1] && os[j] == o[j + 1]);
        }
        assert forall|i: int| 1 <= i && i + 2 < os.len() implies #[trigger] os[i] != os[i + 2] by {
            assert(os[i] == o[i + 1] && os[i + 2] == o[i + 3]);
        }
        assert(mergeable_orders(os));
        if o[0] == o[1] {
            assert(os[0] == os[1]);
            if os.len() >= 3 {
                assert(o[1] != o[3]);
            }
        }
        assert(of[0] < of[1]);
        assert forall|i: int, j: int| 0 <= i < j < of.len() implies of[i] < of[j] by {
            if i > 0 {
                assert(of[i] == os1[i - 1] && of[j] == os1[j - 1]);
            } else if j > 1 {
                assert(of[j] == os1[j - 1]);
                assert(os1[0] < os1[j - 1]);
            }
        }
    }
}

proof fn lemma_orders_link(o: Seq<int>, oa1: Seq<int>, of: Seq<int>)
    requires
        o.len() >= 2,
        o[0] == o[1],
        o.len() < 3 || o[2] != o[1],
        oa1 == seq![o[0] + 1] + o.subrange(2, o.len() as int),
        coalesced_orders(oa1, of),
    ensures
        coalesced_orders(o, of),
{
    if mergeable_orders(o) {
        assert forall|i: int, j: int| 0 <= i < j < oa1.len() implies oa1[i] <= oa1[j] by {
            if i == 0 {
                assert(oa1[j] == o[j + 1]);
                assert(o[1] <= o[2]);
                assert(o[2] <= o[j + 1]);
            } else {
                assert(oa1[i] == o[i + 1] && oa1[j] == o[j + 1]);
            }
        }
        assert forall|i: int| 1 <= i && i + 2 < oa1.len() implies #[trigger] oa1[i] != oa1[i + 2] by {
            assert(oa1[i] == o[i + 1] && oa1[i + 2] == o[i + 3]);
        }
    }
}

/// Walks the root chain from `a` and joins neighbouring trees of equal order,
/// the one with the greater item on top, so that the chain stays ordered by
/// `order`. Every item is kept, and heap-ordered trees stay heap-ordered.
pub fn coalesce<T: Priority>(a: &mut Box<Node<T>>)
    requires
        orders_fit(**old(a)),
    ensures
        forest_items(Some(*final(a))) == forest_items(Some(*old(a))),
        heap_ok(Some(*old(a))) ==> heap_ok(Some(*final(a))),
        coalesced_orders(orders(**old(a)), orders(**final(a))),
        old(a).sibling is None ==> **final(a) == **old(a),
        old(a).sibling matches Some(y) ==> (y.order != old(a).order || (y.sibling matches Some(z)
            && z.order == y.order)) ==> final(a).item == old(a).item && final(a).order == old(a).order
            && final(a).child == old(a).child && final(a).sibling is Some,
        old(a).sibling matches Some(y) ==> y.sibling is None && y.order == old(a).order ==> **final(a)
            == joined(**old(a), *y),
    decreases chain(**old(a)).len(),
{
    broadcast use vstd::multiset::group_multiset_axioms;

    let ghost a0 = **a;
    let ghost o = orders(a0);
    proof {
        lemma_chain_nonempty(a0);
        lemma_orders_unfold(a0);
    }
    let sib = a.sibling.take();
    match sib {
        None => {
            proof {
                assert(a.sibling == a0.sibling);
                assert(**a == a0);
                assert(*a == Box::new(a0));
                lemma_orders_single(o);
            }
        },
        Some(mut s) => {
            let ghost s0 = *s;
            let ghost sbox = s;
            proof {
                lemma_orders_unfold(s0);
                assert(o.drop_first() == orders(s0));
                assert(o[1] == s0.order);
                match s0.sibling {
                    Some(nb) => {
                        lemma_orders_unfold(*nb);
                        assert(o[2] == orders(s0)[1]);
                        assert(o[2] == nb.order);
                    },
                    None => {
                        assert(o.len() == 2);
                    },
                }
                assert(a0.sibling == Some(sbox));
                assert(forest_items(Some(Box::new(a0))) == tree_items(a0).add(forest_items(Some(sbox))));
                assert(forest_items(Some(sbox)) == tree_items(s0).add(forest_items(s0.sibling)));
                assert(heap_ok(Some(Box::new(a0))) ==> node_ok(a0) && heap_ok(Some(sbox)));
                assert(heap_ok(Some(sbox)) ==> node_ok(s0) && heap_ok(s0.sibling));
            }
            proof {
                lemma_chain_nonempty(s0);
            }
            let keep_moving = a.order != s.order || match &s.sibling {
                Some(c) => c.order == s.order,
                None => false,
            };
            proof {
                assert(chain(a0)[1] == s0);
                assert forall|i: int| 0 <= i < chain(s0).len() implies #[trigger] chain(s0)[i].order
                    + chain(s0).len() < usize::MAX by {
                    assert(chain(s0)[i] == chain(a0)[i + 1]);
                }
            }
            if keep_moving {
                coalesce(&mut s);
                let ghost s1 = *s;
                a.sibling = Some(s);
                proof {
                    lemma_orders_unfold(**a);
                    lemma_orders_unfold(s1);
                    lemma_orders_keep(o, orders(**a), orders(s1));
                    assert(forest_items(Some(*a)) == tree_items(a0).add(forest_items(Some(Box::new(s1)))));
                    assert(forest_items(Some(Box::new(a0))) == tree_items(a0).add(forest_items(Some(Box::new(s0)))));
                }
            } else if s.item.no_greater(&a.item) {
                let rest = s.sibling.take();
                let ghost rest0 = rest;
                a.sibling = rest;
                let ghost pre_a = **a;
                let ghost pre_s = *s;
                link(a, s);
                let ghost a1 = **a;
                proof {
                    lemma_chain_nonempty(**a);
                    lemma_joined_fits(a0, s0, **a);
                    assert(tree_items(pre_a) == tree_items(a0));
                    assert(tree_items(pre_s) == tree_items(s0));
                    assert(rest0 == s0.sibling);
                    assert(a1.sibling == rest0);
                    assert(forest_items(Some(Box::new(a1))) == tree_items(a1).add(forest_items(rest0)));
                    assert(forest_items(Some(Box::new(a1))) =~= forest_items(Some(Box::new(a0))));
                    if heap_ok(Some(Box::new(a0))) {
                        assert(node_ok(pre_a));
                        assert(node_ok(pre_s));
                        assert(heap_ok(rest0));
                        assert(node_ok(a1));
                    }
                }
                coalesce(a);
                proof {
                    lemma_orders_unfold(a1);
                    assert(orders(a1) =~= seq![o[0] + 1] + o.subrange(2, o.len() as int));
                    lemma_orders_link(o, orders(a1), orders(**a));
                }
            } else {
                proof {
                    T::lemma_total(s0.item, a0.item);
                }
                let rest = s.sibling.take();
                let ghost rest0 = rest;
                core::mem::swap(a, &mut s);
                a.sibling = rest;
                let ghost pre_a = **a;
                let ghost pre_s = *s;
                link(a, s);
                let ghost a1 = **a;
                proof {
                    lemma_chain_nonempty(**a);
                    lemma_joined_fits(a0, s0, **a);
                    assert(tree_items(pre_a) == tree_items(s0));
                    assert(tree_items(pre_s) == tree_items(a0));
                    assert(rest0 == s0.sibling);
                    assert(a1.sibling == rest0);
                    assert(forest_items(Some(Box::new(a1))) == tree_items(a1).add(forest_items(rest0)));
                    assert(forest_items(Some(Box::new(a1))) =~= forest_items(Some(Box::new(a0))));
                    if heap_ok(Some(Box::new(a0))) {
                        assert(node_ok(pre_a));
                        assert(node_ok(pre_s));
                        assert(heap_ok(rest0));
                        assert(node_ok(a1));
                    }
                }
                coalesce(a);
                proof {
                    lemma_orders_unfold(a1);
                    assert(orders(a1) =~= seq![o[0] + 1] + o.subrange(2, o.len() as int));
                    lemma_orders_link(o, orders(a1), orders(**a));
                }
            }
        },
    }
}

/// The items of the trees listed by a sequence of entries.
pub open spec fn entry_items<T>(es: Seq<(usize, T, Option<Box<Node<T>>>)>) -> Multiset<T>
    decreases es.len(),
{
    if es.len() == 0 {
        Multiset::empty()
    } else {
        forest_items(es[0].2).insert(es[0].1).add(entry_items(es.drop_first()))
    }
}

/// The tree an entry describes is heap-ordered.
pub open spec fn entry_ok<T: Priority>(e: (usize, T, Option<Box<Node<T>>>)) -> bool {
    &&& forall|x: T| #[trigger] forest_items(e.2).contains(x) ==> x.at_most(e.1)
    &&& heap_ok(e.2)
}

proof fn lemma_entries_describe_forest<T: Priority>(n: Node<T>)
    ensures
        forest_items(Some(Box::new(n))) == entry_items(entries(n)),
        heap_ok(Some(Box::new(n))) == (forall|k: int|
            0 <= k < entries(n).len() ==> #[trigger] entry_ok(entries(n)[k])),
    decreases n,
{
    lemma_chain_nonempty(n);
    let es = entries(n);
    assert(es[0] == entry(n));
    match n.sibling {
        None => {
            assert(es.drop_first() =~= Seq::<(usize, T, Option<Box<Node<T>>>)>::empty());
            assert(entry_items(es.drop_first()) == Multiset::<T>::empty());
            assert(forest_items(n.sibling) == Multiset::<T>::empty());
            assert(forest_items(Some(Box::new(n))) =~= entry_items(es));
            assert(es.len() == 1);
            if heap_ok(Some(Box::new(n))) {
                assert(entry_ok(es[0]));
            }
            if entry_ok(es[0]) {
                assert(es[0].1 == n.item && es[0].2 == n.child);
                assert(heap_ok(n.sibling));
                assert forall|x: T| #[trigger] forest_items(n.child).contains(x) implies x.at_most(
                    n.item,
                ) by {
                    assert(forest_items(es[0].2).contains(x));
                }
                assert(heap_ok(Some(Box::new(n))));
            }
        },
        Some(sb) => {
            lemma_entries_describe_forest(*sb);
            assert(es.drop_first() =~= entries(*sb));
            assert(forest_items(Some(Box::new(n))) =~= entry_items(es));
            if heap_ok(Some(Box::new(n))) {
                assert forall|k: int| 0 <= k < es.len() implies #[trigger] entry_ok(es[k]) by {
                    if k > 0 {
                        assert(es[k] == entries(*sb)[k - 1]);
                    }
                }
            }
            if forall|k: int| 0 <= k < es.len() ==> #[trigger] entry_ok(es[k]) {
                assert forall|k: int| 0 <= k < entries(*sb).len() implies #[trigger] entry_ok(
                    entries(*sb)[k],
                ) by {
                    assert(entries(*sb)[k] == es[k + 1]);
                }
                assert(entry_ok(es[0]));
            }
        },
    }
}

proof fn lemma_merged_items<T: Priority>(
    xs: Seq<(usize, T, Option<Box<Node<T>>>)>,
    ys: Seq<(usize, T, Option<Box<Node<T>>>)>,
)
    ensures
        entry_items(merged(xs, ys)) == entry_items(xs).add(entry_items(ys)),
        (forall|k: int| 0 <= k < xs.len() ==> #[trigger] entry_ok(xs[k])) && (forall|k: int|
            0 <= k < ys.len() ==> #[trigger] entry_ok(ys[k])) ==> (forall|k: int|
            0 <= k < merged(xs, ys).len() ==> #[trigger] entry_ok(merged(xs, ys)[k])),
    decreases xs.len() + ys.len(),
{
    broadcast use vstd::multiset::group_multiset_axioms;

    if xs.len() == 0 {
        assert(entry_items(xs).add(entry_items(ys)) =~= entry_items(ys));
    } else if ys.len() == 0 {
        assert(entry_items(xs).add(entry_items(ys)) =~= entry_items(xs));
    } else if xs[0].0 > ys[0].0 {
        lemma_merged_items(ys.drop_first(), xs);
        let m = merged(ys.drop_first(), xs);
        assert((seq![ys[0]] + m).drop_first() =~= m);
        assert(entry_items(merged(xs, ys)) =~= entry_items(xs).add(entry_items(ys)));
        if (forall|k: int| 0 <= k < xs.len() ==> #[trigger] entry_ok(xs[k])) && (forall|k: int|
            0 <= k < ys.len() ==> #[trigger] entry_ok(ys[k])) {
            assert forall|k: int| 0 <= k < ys.drop_first().len() implies #[trigger] entry_ok(
                ys.drop_first()[k],
            ) by {
                assert(ys.drop_first()[k] == ys[k + 1]);
            }
            assert(entry_ok(ys[0]));
        }
    } else {
        lemma_merged_items(xs.drop_first(), ys);
        let m = merged(xs.drop_first(), ys);
        assert((seq![xs[0]] + m).drop_first() =~= m);
        assert(entry_items(merged(xs, ys)) =~= entry_items(xs).add(entry_items(ys)));
        if (forall|k: int| 0 <= k < xs.len() ==> #[trigger] entry_ok(xs[k])) && (forall|k: int|
            0 <= k < ys.len() ==> #[trigger] entry_ok(ys[k])) {
            assert forall|k: int| 0 <= k < xs.drop_first().len() implies #[trigger] entry_ok(
                xs.drop_first()[k],
            ) by {
                assert(xs.drop_first()[k] == xs[k + 1]);
            }
            assert(entry_ok(xs[0]));
        }
    }
}

/// The orders of a sequence of entries increase strictly.
pub open spec fn orders_increasing<T>(xs: Seq<(usize, T, Option<Box<Node<T>>>)>) -> bool {
    forall|i: int, j: int| 0 <= i < j < xs.len() ==> xs[i].0 < xs[j].0
}

proof fn lemma_increasing_tail<T>(xs: Seq<(usize, T, Option<Box<Node<T>>>)>)
    requires
        orders_increasing(xs),
        xs.len() > 0,
    ensures
        orders_increasing(xs.drop_first()),
        xs.len() > 1 ==> xs[0].0 < xs[1].0,
{
    assert forall|i: int, j: int| 0 <= i < j < xs.drop_first().len() implies xs.drop_first()[i].0
        < xs.drop_first()[j].0 by {
        assert(xs[i + 1].0 < xs[j + 1].0);
    }
}

/// The second order of a merge is at least the smaller head's order, and
/// greater unless both heads have the same order.
proof fn lemma_merged_second<T>(
    p: Seq<(usize, T, Option<Box<Node<T>>>)>,
    q: Seq<(usize, T, Option<Box<Node<T>>>)>,
)
    requires
        orders_increasing(p),
        orders_increasing(q),
        p.len() > 0,
        q.len() > 0,
    ensures
        merged(p, q).len() >= 2,
        merged(p, q)[1].0 >= if p[0].0 > q[0].0 { q[0].0 } else { p[0].0 },
        p[0].0 != q[0].0 ==> merged(p, q)[1].0 > if p[0].0 > q[0].0 { q[0].0 } else { p[0].0 },
{
    lemma_increasing_tail(p);
    lemma_increasing_tail(q);
    if p[0].0 > q[0].0 {
        let r = q.drop_first();
        lemma_merged(r, p);
        assert(merged(p, q) == seq![q[0]] + merged(r, p));
        if r.len() > 0 {
            assert(merged(r, p)[0].0 == if r[0].0 > p[0].0 { p[0].0 } else { r[0].0 });
        }
    } else {
        let r = p.drop_first();
        lemma_merged(r, q);
        assert(merged(p, q) == seq![p[0]] + merged(r, q));
        if r.len() > 0 {
            assert(merged(r, q)[0].0 == if r[0].0 > q[0].0 { q[0].0 } else { r[0].0 });
        }
    }
}

/// Merging two chains whose orders strictly increase never puts one order
/// three times in a row.
proof fn lemma_merged_no_triple<T>(
    xs: Seq<(usize, T, Option<Box<Node<T>>>)>,
    ys: Seq<(usize, T, Option<Box<Node<T>>>)>,
)
    requires
        orders_increasing(xs),
        orders_increasing(ys),
    ensures
        forall|i: int|
            0 <= i && i + 2 < merged(xs, ys).len() ==> #[trigger] merged(xs, ys)[i].0 != merged(xs, ys)[i + 2].0,
    decreases xs.len() + ys.len(),
{
    let m = merged(xs, ys);
    if xs.len() > 0 && ys.len() > 0 {
        lemma_increasing_tail(xs);
        lemma_increasing_tail(ys);
        let swap = xs[0].0 > ys[0].0;
        let h = if swap { ys[0] } else { xs[0] };
        let rest = if swap { ys.drop_first() } else { xs.drop_first() };
        let other = if swap { xs } else { ys };
        lemma_merged_no_triple(rest, other);
        lemma_merged(rest, other);
        let t = merged(rest, other);
        assert(m == seq![h] + t);
        if t.len() >= 2 {
            if rest.len() > 0 {
                lemma_merged_second(rest, other);
                if swap {
                    assert(ys[0].0 < ys[1].0);
                } else {
                    assert(xs[0].0 < xs[1].0);
                }
            } else {
                assert(t == other);
                lemma_increasing_tail(other);
            }
            assert(h.0 < t[1].0);
        }
        assert forall|i: int| 0 <= i && i + 2 < m.len() implies #[trigger] m[i].0 != m[i + 2].0 by {
            if i > 0 {
                assert(m[i] == t[i - 1] && m[i + 2] == t[i + 1]);
            }
        }
    }
}

proof fn lemma_orders_are_entry_orders<T>(n: Node<T>)
    ensures
        orders(n).len() == entries(n).len(),
        forall|i: int| 0 <= i < orders(n).len() ==> #[trigger] orders(n)[i] == entries(n)[i].0 as int,
        strictly_increasing(orders(n)) <==> orders_increasing(entries(n)),
{
    assert forall|i: int| 0 <= i < orders(n).len() implies #[trigger] orders(n)[i] == entries(n)[i].0 as int by {
    }
    if strictly_increasing(orders(n)) {
        assert forall|i: int, j: int| 0 <= i < j < entries(n).len() implies entries(n)[i].0 < entries(n)[j].0 by {
            assert(orders(n)[i] < orders(n)[j]);
        }
    }
    if orders_increasing(entries(n)) {
        assert forall|i: int, j: int| 0 <= i < j < orders(n).len() implies orders(n)[i] < orders(n)[j] by {
            assert(entries(n)[i].0 < entries(n)[j].0);
        }
    }
}

/// Adds the root chain `other` to the chain at `root`: merges the two chains
/// by order, then joins neighbouring trees of equal order.
pub fn append<T: Priority>(root: &mut Box<Node<T>>, other: Option<Box<Node<T>>>)
    requires
        forall|k: int|
            0 <= k < chain(**old(root)).len() ==> #[trigger] chain(**old(root))[k].order + chain(
                **old(root),
            ).len() + link_chain(other).len() < usize::MAX,
        forall|k: int|
            0 <= k < link_chain(other).len() ==> #[trigger] link_chain(other)[k].order + chain(
                **old(root),
            ).len() + link_chain(other).len() < usize::MAX,
    ensures
        forest_items(Some(*final(root))) == forest_items(Some(*old(root))).add(forest_items(other)),
        heap_ok(Some(*old(root))) && heap_ok(other) ==> heap_ok(Some(*final(root))),
        strictly_increasing(orders(**old(root))) && (other matches Some(o) ==> strictly_increasing(
            orders(*o),
        )) ==> strictly_increasing(orders(**final(root))),
        old(root).sibling is None ==> (other matches Some(o) ==> o.sibling is None && o.order == old(
            root,
        ).order ==> **final(root) == joined(**old(root), *o)),
{
    broadcast use {vstd::seq_lib::group_to_multiset_ensures, vstd::multiset::group_multiset_axioms};

    if let Some(other) = other {
        let ghost r0 = **root;
        let ghost o0 = *other;
        merge(root, other);
        let ghost m0 = **root;
        proof {
            if r0.sibling is None && o0.sibling is None && o0.order == r0.order {
                lemma_chain_nonempty(r0);
                lemma_chain_nonempty(o0);
                lemma_chain_nonempty(m0);
                let ea = entries(r0);
                let eb = entries(o0);
                assert(ea =~= seq![entry(r0)]);
                assert(eb =~= seq![entry(o0)]);
                assert(merged(ea.drop_first(), eb) == eb);
                assert(entries(m0) =~= seq![entry(r0), entry(o0)]);
                assert(entries(m0)[0] == entry(m0));
                assert(chain(m0).len() == 2);
                let n1 = *m0.sibling->Some_0;
                lemma_chain_nonempty(n1);
                assert(chain(m0)[1] == n1);
                assert(entries(m0)[1] == entry(n1));
                assert(n1.sibling is None);
                assert(joined(m0, n1) == joined(r0, o0));
            }
            let ea = entries(r0);
            let eb = entries(o0);
            lemma_merged(ea, eb);
            lemma_merged_items(ea, eb);
            lemma_entries_describe_forest(r0);
            lemma_entries_describe_forest(o0);
            lemma_entries_describe_forest(m0);
            assert(chain(m0).len() == entries(m0).len());
            assert(chain(r0).len() == ea.len());
            assert(chain(o0).len() == eb.len());
            assert forall|k: int| 0 <= k < chain(m0).len() implies #[trigger] chain(m0)[k].order
                + chain(m0).len() < usize::MAX by {
                let e = entries(m0)[k];
                assert(e.0 == chain(m0)[k].order);
                assert(entries(m0).to_multiset().count(e) > 0);
                if ea.to_multiset().count(e) > 0 {
                    assert(ea.contains(e));
                    let j = choose|j: int| 0 <= j < ea.len() && ea[j] == e;
                    assert(ea[j].0 == chain(r0)[j].order);
                } else {
                    assert(eb.contains(e));
                    let j = choose|j: int| 0 <= j < eb.len() && eb[j] == e;
                    assert(eb[j].0 == chain(o0)[j].order);
                }
            }
        }
        proof {
            let ea = entries(r0);
            let eb = entries(o0);
            lemma_orders_are_entry_orders(r0);
            lemma_orders_are_entry_orders(o0);
            lemma_orders_are_entry_orders(m0);
            if strictly_increasing(orders(r0)) && strictly_increasing(orders(o0)) {
                assert(orders_increasing(ea));
                assert(orders_increasing(eb));
                lemma_merged_no_triple(ea, eb);
                assert(orders_sorted(ea));
                assert(orders_sorted(eb));
                let om = orders(m0);
                assert forall|i: int, j: int| 0 <= i < j < om.len() implies om[i] <= om[j] by {
                    assert(entries(m0)[i].0 <= entries(m0)[j].0);
                }
                assert forall|i: int| 1 <= i && i + 2 < om.len() implies #[trigger] om[i] != om[i + 2] by {
                    assert(entries(m0)[i].0 != entries(m0)[i + 2].0);
                }
                assert(mergeable_orders(om));
            }
        }
        coalesce(root);
        proof {
            if r0.sibling is None && o0.sibling is None && o0.order == r0.order {
                assert(**root == joined(m0, *m0.sibling->Some_0));
            }
        }
    } else {
        proof {
            assert(forest_items(Some(*root)).add(Multiset::empty()) =~= forest_items(Some(*root)));
        }
    }
}

} // verus!
