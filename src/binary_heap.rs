//! A max-heap stored level by level in a vector, whose removal sifts the
//! displaced value down from the root in one bounded pass.

use vstd::prelude::*;
use vstd::multiset::Multiset;
use crate::order::Priority;
use crate::iter::Iter;
use crate::storage::{
    copy_vec, vec_capacity, vec_reserve_exact, vec_shrink_to_fit,
};
use crate::sift::{
    rebuild_vec, desc, on_path, sift_up, sift_down_in, subtree_ordered, subtree_ordered_but,
    children_ordered_below, lemma_desc_le, lemma_desc_root,
};
use crate::heap_spec::{
    parent, edge_ok, heap_ordered, ordered_except, bridged, is_greatest, lemma_root_is_greatest,
};

verus! {

broadcast use {vstd::seq_lib::group_to_multiset_ensures, vstd::multiset::group_multiset_axioms};

/// A max-heap of `T` values.
#[derive(Debug)]
pub struct BinaryHeap<T: Priority> {
    data: Vec<T>,
}

impl<T: Priority> View for BinaryHeap<T> {
    type V = Seq<T>;

    /// The backing vector, level by level.
    closed spec fn view(&self) -> Seq<T> {
        self.data@
    }
}

impl<T: Priority> BinaryHeap<T> {
    /// The values stored, without regard to position.
    pub open spec fn contents(&self) -> Multiset<T> {
        self@.to_multiset()
    }

    /// The heap order holds over the backing vector.
    pub open spec fn wf(&self) -> bool {
        heap_ordered(self@)
    }

    /// Creates an empty heap.
    pub fn new() -> (r: Self)
        ensures
            r@ == Seq::<T>::empty(),
            r.wf(),
    {
        BinaryHeap { data: Vec::new() }
    }

    /// Creates an empty heap with room for `capacity` values.
    pub fn with_capacity(capacity: usize) -> (r: Self)
        requires
            capacity * vstd::layout::size_of::<T>() <= isize::MAX,
        ensures
            r@ == Seq::<T>::empty(),
            r.wf(),
    {
        BinaryHeap { data: Vec::with_capacity(capacity) }
    }

    /// Removes a greatest value from the heap and returns it, or `None` when
    /// the heap is empty.
    pub fn pop(&mut self) -> (r: Option<T>)
        requires
            old(self).wf(),
        ensures
            final(self).wf(),
            old(self)@.len() == 0 ==> r == None::<T> && final(self)@ == old(self)@,
            old(self)@.len() > 0 ==> r == Some(old(self)@[0]),
            old(self)@.len() > 0 ==> final(self)@.len() == old(self)@.len() - 1,
            r matches Some(x) ==> is_greatest(x, old(self).contents()) && final(self).contents()
                == old(self).contents().remove(x),
    {
        let ghost s0 = self@;
        proof {
            if s0.len() > 0 {
                lemma_root_is_greatest(s0);
            }
        }
        match self.data.pop() {
            None => None,
            Some(item) => {
                proof {
                    assert(s0 =~= self@.push(item));
                }
                if self.data.len() > 0 {
                    let top = self.data[0];
                    self.data.set(0, item);
                    proof {
                        let s = self@;
                        assert forall|i: int|
                            0 < i < s.len() && desc(0, parent(i)) && parent(i) != 0 implies #[trigger] edge_ok(
                            s,
                            i,
                        ) by {
                            lemma_desc_le(0, parent(i));
                            assert(edge_ok(s0, i));
                        }
                    }
                    self.bubble_down(0);
                    proof {
                        assert forall|i: int| 0 < i < self@.len() implies #[trigger] edge_ok(
                            self@,
                            i,
                        ) by {
                            lemma_desc_root(parent(i));
                        }
                    }
                    Some(top)
                } else {
                    Some(item)
                }
            },
        }
    }

    /// Adds `value` to the heap.
    pub fn push(&mut self, value: T)
        requires
            old(self).wf(),
            old(self)@.len() < usize::MAX,
        ensures
            final(self).wf(),
            final(self).contents() == old(self).contents().insert(value),
            final(self)@.len() == old(self)@.len() + 1,
    {
        let old_len = self.data.len();
        self.data.push(value);
        proof {
            let s = self@;
            assert forall|i: int| 0 < i < s.len() && i != old_len implies #[trigger] edge_ok(
                s,
                i,
            ) by {
                assert(edge_ok(old(self)@, i));
            }
        }
        self.bubble_up(old_len);
    }

    /// Moves the value at `pos` up towards the root while its parent is smaller.
    /// Returns where the value came to rest; the values on the way from there
    /// down to `pos` each move one level down, and nothing else moves.
    fn bubble_up(&mut self, pos: usize) -> (r: usize)
        requires
            pos < old(self)@.len(),
            ordered_except(old(self)@, pos as int),
            bridged(old(self)@, pos as int),
        ensures
            final(self).wf(),
            final(self).contents() == old(self).contents(),
            final(self)@.len() == old(self)@.len(),
            r <= pos,
            desc(r as int, pos as int),
            final(self)@[r as int] == old(self)@[pos as int],
            forall|i: int|
                0 <= i < old(self)@.len() && on_path(r as int, i, pos as int) && i != r ==> #[trigger] final(self)@[i]
                    == old(self)@[parent(i)],
            forall|i: int|
                0 <= i < old(self)@.len() && !on_path(r as int, i, pos as int) ==> #[trigger] final(self)@[i]
                    == old(self)@[i],
    {
        let mut data: Vec<T> = Vec::new();
        core::mem::swap(&mut data, &mut self.data);
        let (data, r) = sift_up(data, pos);
        self.data = data;
        r
    }

    /// Takes the value at `pos` aside and moves the hole down through the
    /// subtree of `pos`, among the slots below `end`, while a child is not smaller than
    /// that value; then writes the value into the hole. Slots outside that
    /// subtree, and from `end` on, keep their values.
    fn sift_down_range(&mut self, pos: usize, end: usize)
        requires
            pos < end <= old(self)@.len(),
            subtree_ordered_but(old(self)@, pos as int, end as int, pos as int),
        ensures
            final(self)@.len() == old(self)@.len(),
            final(self).contents() == old(self).contents(),
            subtree_ordered(final(self)@, pos as int, end as int),
            forall|i: int|
                0 <= i < old(self)@.len() && (i >= end || !desc(pos as int, i)) ==> #[trigger] final(self)@[i]
                    == old(self)@[i],
            children_ordered_below(old(self)@, pos as int, end as int) ==> final(self)@ == old(self)@,
    {
        let mut data: Vec<T> = Vec::new();
        core::mem::swap(&mut data, &mut self.data);
        self.data = sift_down_in(data, pos, end, true);
    }

    /// Sifts the value at `pos` down through the whole vector.
    fn bubble_down(&mut self, pos: usize)
        requires
            pos < old(self)@.len(),
            subtree_ordered_but(old(self)@, pos as int, old(self)@.len() as int, pos as int),
        ensures
            final(self)@.len() == old(self)@.len(),
            final(self).contents() == old(self).contents(),
            subtree_ordered(final(self)@, pos as int, old(self)@.len() as int),
            forall|i: int|
                0 <= i < old(self)@.len() && !desc(pos as int, i) ==> #[trigger] final(self)@[i] == old(self)@[i],
            children_ordered_below(old(self)@, pos as int, old(self)@.len() as int) ==> final(self)@ == old(self)@,
    {
        let len = self.data.len();
        self.sift_down_range(pos, len);
    }

    /// Restores the heap order over the whole vector, from the last inner node
    /// back to the root.
    fn rebuild(&mut self)
        ensures
            final(self).wf(),
            final(self).contents() == old(self).contents(),
            final(self)@.len() == old(self)@.len(),
            heap_ordered(old(self)@) ==> final(self)@ == old(self)@,
    {
        let mut data: Vec<T> = Vec::new();
        core::mem::swap(&mut data, &mut self.data);
        self.data = rebuild_vec(data, true);
    }

    /// Returns a greatest value of the heap, or `None` when it is empty.
    pub fn peek(&self) -> (r: Option<&T>)
        ensures
            self@.len() == 0 <==> r is None,
            r matches Some(x) ==> *x == self@[0],
            r matches Some(x) ==> self.wf() ==> is_greatest(*x, self.contents()),
    {
        proof {
            if self@.len() > 0 && self.wf() {
                lemma_root_is_greatest(self@);
            }
        }
        if self.data.len() == 0 {
            None
        } else {
            Some(&self.data[0])
        }
    }

    /// Returns the number of values in the heap.
    pub fn len(&self) -> (r: usize)
        ensures
            r == self@.len(),
            r == self.contents().len(),
    {
        self.data.len()
    }

    /// Returns whether the heap holds no value.
    pub fn is_empty(&self) -> (r: bool)
        ensures
            r == (self@.len() == 0),
            r == (self.contents().len() == 0),
    {
        self.data.len() == 0
    }

    /// Returns how many values the heap can hold without reallocating.
    pub fn capacity(&self) -> (r: usize)
        ensures
            r >= self@.len(),
    {
        vec_capacity(&self.data)
    }

    /// Reserves room for exactly `additional` more values.
    pub fn reserve_exact(&mut self, additional: usize)
        requires
            old(self)@.len() + additional <= usize::MAX,
            (old(self)@.len() + additional) * vstd::layout::size_of::<T>() <= isize::MAX,
        ensures
            final(self)@ == old(self)@,
    {
        vec_reserve_exact(&mut self.data, additional)
    }

    /// Reserves room for at least `additional` more values.
    pub fn reserve(&mut self, additional: usize)
        requires
            old(self)@.len() + additional <= usize::MAX,
            (old(self)@.len() + additional) * vstd::layout::size_of::<T>() <= isize::MAX,
        ensures
            final(self)@ == old(self)@,
    {
        self.data.reserve(additional)
    }

    /// Shrinks the allocation as much as possible.
    pub fn shrink_to_fit(&mut self)
        ensures
            final(self)@ == old(self)@,
    {
        vec_shrink_to_fit(&mut self.data)
    }

    /// Visits the stored values in storage order (not sorted).
    pub fn iter(&self) -> (r: Iter<'_, T>)
        ensures
            r.remaining() == self@,
    {
        Iter::new(&self.data)
    }

    /// Consumes the heap into its backing vector, in storage order.
    pub fn into_vec(self) -> (r: Vec<T>)
        ensures
            r@ == self@,
    {
        self.data
    }

    /// Builds a heap from the values of `vec` in linear time. A vector that is
    /// already heap-ordered is kept as it is.
    pub fn from_vec(vec: Vec<T>) -> (r: Self)
        ensures
            r.wf(),
            r.contents() == vec@.to_multiset(),
            r@.len() == vec@.len(),
            heap_ordered(vec@) ==> r@ == vec@,
    {
        let mut heap = BinaryHeap { data: vec };
        heap.rebuild();
        heap
    }
}

impl<T: Priority> Default for BinaryHeap<T> {
    fn default() -> (r: Self)
        ensures
            r@ == Seq::<T>::empty(),
            r.wf(),
    {
        BinaryHeap::new()
    }
}

impl<T: Priority> Clone for BinaryHeap<T> {
    fn clone(&self) -> (r: Self)
        ensures
            r@ == self@,
    {
        BinaryHeap { data: copy_vec(&self.data) }
    }
}

impl<T: Priority> From<Vec<T>> for BinaryHeap<T> {
    /// Heapifies `vec`; see `from_vec`.
    fn from(vec: Vec<T>) -> (r: Self)
        ensures
            r.wf(),
            r.contents() == vec@.to_multiset(),
            r@.len() == vec@.len(),
            heap_ordered(vec@) ==> r@ == vec@,
    {
        BinaryHeap::from_vec(vec)
    }
}

impl<T: Priority> vstd::std_specs::convert::FromSpecImpl<Vec<T>> for BinaryHeap<T> {
    /// The layout a heapify produces is stated by `from`'s own contract, not
    /// by a closed form.
    open spec fn obeys_from_spec() -> bool {
        false
    }

    open spec fn from_spec(vec: Vec<T>) -> BinaryHeap<T> {
        arbitrary()
    }
}

impl<T: Priority> From<BinaryHeap<T>> for Vec<T> {
    /// The backing vector; see `into_vec`.
    fn from(heap: BinaryHeap<T>) -> (r: Vec<T>)
        ensures
            r@ == heap@,
    {
        heap.data
    }
}

impl<T: Priority> vstd::std_specs::convert::FromSpecImpl<BinaryHeap<T>> for Vec<T> {
    open spec fn obeys_from_spec() -> bool {
        true
    }

    closed spec fn from_spec(heap: BinaryHeap<T>) -> Vec<T> {
        heap.data
    }
}

} // verus!
