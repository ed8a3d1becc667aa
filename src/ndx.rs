//! Index arithmetic for heaps stored level by level in an array.

use vstd::prelude::*;

verus! {

/// The index of the parent of `pos` in a heap whose nodes have `sz` children;
/// the root is its own parent.
pub open spec fn parent_of(pos: int, sz: int) -> int {
    if pos == 0 {
        0
    } else {
        (pos - 1) / sz
    }
}

/// Index of the parent node of `pos` in a heap whose nodes have `sz` children.
pub fn heap_parent_ndx(pos: usize, sz: usize) -> (r: usize)
    requires
        sz != 0,
    ensures
        r == parent_of(pos as int, sz as int),
        pos > 0 ==> r < pos,
{
    if pos == 0 {
        0
    } else {
        (pos - 1) / sz
    }
}

/// Index of the child number `c` of `pos` in a heap whose nodes have `sz` children.
pub fn heap_child_ndx(pos: usize, c: usize, sz: usize) -> (r: usize)
    requires
        pos * sz + c + 1 <= usize::MAX,
    ensures
        r == pos * sz + c + 1,
{
    pos * sz + c + 1
}

/// Whether `pos` is the root of the heap.
pub fn heap_is_root(pos: usize) -> (r: bool)
    ensures
        r == (pos == 0),
{
    pos == 0
}

/// Index of the parent of `pos` in a binary heap.
pub fn bheap_parent_ndx(pos: usize) -> (r: usize)
    ensures
        r == parent_of(pos as int, 2),
        pos > 0 ==> r < pos,
{
    heap_parent_ndx(pos, 2)
}

/// Index of the child number `c` (0 for left, 1 for right) of `pos` in a binary heap.
pub fn bheap_child_ndx(pos: usize, c: usize) -> (r: usize)
    requires
        pos * 2 + c + 1 <= usize::MAX,
    ensures
        r == 2 * pos + c + 1,
{
    heap_child_ndx(pos, c, 2)
}

/// Whether `pos` is the root of a binary heap.
pub fn bheap_is_root(pos: usize) -> (r: bool)
    ensures
        r == (pos == 0),
{
    heap_is_root(pos)
}

} // verus!
