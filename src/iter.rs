//! Front-to-back traversals of the elements stored in a heap, in storage order.

use vstd::prelude::*;

verus! {

/// The elements of `items` from index `next` on.
pub open spec fn rest<T>(items: Seq<T>, next: int) -> Seq<T> {
    if 0 <= next <= items.len() {
        items.subrange(next, items.len() as int)
    } else {
        Seq::empty()
    }
}

/// A borrowing traversal over a sequence of elements.
pub struct Iter<'a, T: Copy> {
    items: &'a Vec<T>,
    next: usize,
}

impl<'a, T: Copy> Iter<'a, T> {
    /// The elements that are still to come.
    pub closed spec fn remaining(&self) -> Seq<T> {
        rest(self.items@, self.next as int)
    }

    /// Starts a traversal at the first element of `items`.
    pub fn new(items: &'a Vec<T>) -> (r: Self)
        ensures
            r.remaining() == items@,
    {
        let r = Iter { items, next: 0 };
        assert(r.remaining() =~= items@);
        r
    }

    /// Returns the next element, or `None` once all have been visited.
    pub fn next(&mut self) -> (r: Option<T>)
        ensures
            old(self).remaining().len() == 0 ==> r == None::<T>,
            old(self).remaining().len() == 0 ==> final(self).remaining() == old(self).remaining(),
            old(self).remaining().len() > 0 ==> r == Some(old(self).remaining()[0]),
            old(self).remaining().len() > 0 ==> final(self).remaining() == old(
                self,
            ).remaining().drop_first(),
    {
        if self.next >= self.items.len() {
            None
        } else {
            let v = self.items[self.next];
            self.next = self.next + 1;
            assert(self.remaining() =~= old(self).remaining().drop_first());
            Some(v)
        }
    }

    /// Returns how many elements are still to come.
    pub fn len(&self) -> (r: usize)
        ensures
            r == self.remaining().len(),
    {
        if self.next >= self.items.len() {
            0
        } else {
            self.items.len() - self.next
        }
    }
}

/// An owning traversal over a sequence of elements.
pub struct IntoIter<T: Copy> {
    items: Vec<T>,
    next: usize,
}

impl<T: Copy> IntoIter<T> {
    /// The elements that are still to come.
    pub closed spec fn remaining(&self) -> Seq<T> {
        rest(self.items@, self.next as int)
    }

    /// Starts a traversal at the first element of `items`.
    pub fn new(items: Vec<T>) -> (r: Self)
        ensures
            r.remaining() == items@,
    {
        let r = IntoIter { items, next: 0 };
        assert(r.remaining() =~= r.items@);
        r
    }

    /// Returns the next element, or `None` once all have been visited.
    pub fn next(&mut self) -> (r: Option<T>)
        ensures
            old(self).remaining().len() == 0 ==> r == None::<T>,
            old(self).remaining().len() == 0 ==> final(self).remaining() == old(self).remaining(),
            old(self).remaining().len() > 0 ==> r == Some(old(self).remaining()[0]),
            old(self).remaining().len() > 0 ==> final(self).remaining() == old(
                self,
            ).remaining().drop_first(),
    {
        if self.next >= self.items.len() {
            None
        } else {
            let v = self.items[self.next];
            self.next = self.next + 1;
            assert(self.remaining() =~= old(self).remaining().drop_first());
            Some(v)
        }
    }

    /// Returns how many elements are still to come.
    pub fn len(&self) -> (r: usize)
        ensures
            r == self.remaining().len(),
    {
        if self.next >= self.items.len() {
            0
        } else {
            self.items.len() - self.next
        }
    }
}

} // verus!
