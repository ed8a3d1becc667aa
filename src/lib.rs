//! Array-backed priority heaps built on a single-slot relocation cursor
//! (`MemCursor`, `Hole`), with their laws; alongside them, independent
//! helpers: bit strings over `u8` and `u64`, edit distances, byte encodings,
//! binomial-heap nodes, and Bloom filters.

pub mod order;
pub mod ndx;
pub mod memcursor;
pub mod hole;
pub mod heap_spec;
pub mod sift;
pub mod storage;
pub mod iter;
pub mod binheap;
pub mod binary_heap;
pub mod mask;
pub mod bit;
pub mod bitstring;
pub mod bu8;
pub mod bu64;
pub mod bits;
pub mod bits8;
pub mod bits64;
pub mod bitstring_ops;
pub mod prim_u8;
pub mod prim_u64;
pub mod evolution;
pub mod evo_u8;
pub mod evo_u64;
pub mod distances;
pub mod bytes;
pub mod unit;
pub mod binomial;
pub mod k2hasher;
pub mod bloom;
pub mod counting;
pub mod words;
pub mod render;

pub use crate::order::Priority;
pub use crate::memcursor::MemCursor;
pub use crate::hole::Hole;
pub use crate::iter::{Iter, IntoIter};
pub use crate::binheap::BinHeap;
pub use crate::binary_heap::BinaryHeap;
pub use crate::ndx::{
    heap_parent_ndx, heap_child_ndx, heap_is_root, bheap_parent_ndx, bheap_child_ndx,
    bheap_is_root,
};
