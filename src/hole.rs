//! `Hole`: a single-slot lease with the contracts of `MemCursor`, on which
//! it is built.

use vstd::prelude::*;
use crate::memcursor::MemCursor;
use crate::heap_spec::swapped;

verus! {

/// Exclusive lease over a sequence with one slot (the hole) whose value is
/// held aside until `release` writes it back.
pub struct Hole<T: Copy> {
    cursor: MemCursor<T>,
}

impl<T: Copy> Hole<T> {
    /// The raw slots; the slot at `hole()` holds a stale value.
    pub closed spec fn slots(self) -> Seq<T> {
        self.cursor.slots()
    }

    /// The index of the hole.
    pub closed spec fn hole(self) -> nat {
        self.cursor.hole()
    }

    /// The value held aside while the lease lasts.
    pub closed spec fn held(self) -> T {
        self.cursor.held()
    }

    /// The sequence as it would be if the held value were written back now.
    pub open spec fn restored(self) -> Seq<T> {
        self.slots().update(self.hole() as int, self.held())
    }

    /// The hole lies inside the sequence.
    pub open spec fn wf(self) -> bool {
        self.hole() < self.slots().len()
    }

    /// Takes the value at `pos` aside and opens a hole there.
    pub fn new(data: Vec<T>, pos: usize) -> (r: Self)
        requires
            pos < data@.len(),
        ensures
            r.slots() == data@,
            r.hole() == pos,
            r.held() == data@[pos as int],
            r.restored() == data@,
            r.wf(),
    {
        Hole { cursor: MemCursor::new(data, pos) }
    }

    /// Returns the index of the hole.
    pub fn pos(&self) -> (r: usize)
        requires
            self.wf(),
        ensures
            r == self.hole(),
            r < self.slots().len(),
    {
        self.cursor.pos()
    }

    /// Returns the value held aside.
    pub fn element(&self) -> (r: &T)
        ensures
            *r == self.held(),
    {
        self.cursor.element()
    }

    /// Returns the value at `index`, which must not be the hole.
    pub fn get(&self, index: usize) -> (r: &T)
        requires
            self.wf(),
            index != self.hole(),
            index < self.slots().len(),
        ensures
            *r == self.slots()[index as int],
            *r == self.restored()[index as int],
    {
        self.cursor.get(index)
    }

    /// Copies the value at `index` into the hole, and moves the hole to `index`.
    pub fn move_to(&mut self, index: usize)
        requires
            old(self).wf(),
            index != old(self).hole(),
            index < old(self).slots().len(),
        ensures
            final(self).slots() == old(self).slots().update(
                old(self).hole() as int,
                old(self).slots()[index as int],
            ),
            final(self).hole() == index,
            final(self).wf(),
            final(self).held() == old(self).held(),
            final(self).restored() == swapped(
                old(self).restored(),
                old(self).hole() as int,
                index as int,
            ),
    {
        self.cursor.move_to(index)
    }

    /// Writes the held value into the hole and hands the sequence back.
    pub fn release(self) -> (r: Vec<T>)
        requires
            self.wf(),
        ensures
            r@ == self.restored(),
    {
        self.cursor.release()
    }
}

} // verus!
