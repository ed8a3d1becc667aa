//! Constructors and range operations for bit strings, stated bit by bit.

use vstd::prelude::*;
use crate::bitstring::Bitstring;

verus! {

/// Ways to build a bit string.
pub trait BitsConstructors: Bitstring {
    /// No bit set.
    fn zero() -> (r: Self)
        ensures
            forall|i: nat| i < Self::width() ==> !(#[trigger] r.bit(i)),
    ;

    /// Only bit 0 set.
    fn one() -> (r: Self)
        ensures
            forall|i: nat| i < Self::width() ==> #[trigger] r.bit(i) == (i == 0),
    ;

    /// Every bit set.
    fn with_all_ones() -> (r: Self)
        ensures
            forall|i: nat| i < Self::width() ==> #[trigger] r.bit(i),
    ;

    /// Only bit `power` set.
    fn pow2(power: usize) -> (r: Self)
        requires
            power < Self::width(),
        ensures
            forall|i: nat| i < Self::width() ==> #[trigger] r.bit(i) == (i == power),
    ;

    /// The `len` lowest bits set.
    fn with_low_ones(len: usize) -> (r: Self)
        requires
            len <= Self::width(),
        ensures
            forall|i: nat| i < Self::width() ==> #[trigger] r.bit(i) == (i < len),
    ;

    /// The `len` highest bits set.
    fn with_high_ones(len: usize) -> (r: Self)
        requires
            len <= Self::width(),
        ensures
            forall|i: nat| i < Self::width() ==> #[trigger] r.bit(i) == (i + len >= Self::width()),
    ;

    /// The bits below `pos`, and the bits from `pos` on.
    fn split_at(&self, pos: usize) -> (r: (Self, Self))
        requires
            pos <= Self::width(),
        ensures
            forall|i: nat| i < Self::width() ==> #[trigger] r.0.bit(i) == (i < pos && self.bit(i)),
            forall|i: nat| i < Self::width() ==> #[trigger] r.1.bit(i) == (i >= pos && self.bit(i)),
    ;
}

/// Operations on runs of bits at either end, or in between.
pub trait BitsRange: Bitstring {
    /// Clears the `len` lowest bits.
    fn rst_low_range(&mut self, len: usize)
        requires
            len <= Self::width(),
        ensures
            forall|i: nat| i < Self::width() ==> #[trigger] final(self).bit(i) == (i >= len && old(self).bit(i)),
    ;

    /// Clears the `len` highest bits.
    fn rst_high_range(&mut self, len: usize)
        requires
            len <= Self::width(),
        ensures
            forall|i: nat| i < Self::width() ==> #[trigger] final(self).bit(i) == (i + len < Self::width() && old(self).bit(i)),
    ;

    /// Sets the `len` lowest bits.
    fn set_low_range(&mut self, len: usize)
        requires
            len <= Self::width(),
        ensures
            forall|i: nat| i < Self::width() ==> #[trigger] final(self).bit(i) == (i < len || old(self).bit(i)),
    ;

    /// Sets the `len` highest bits.
    fn set_high_range(&mut self, len: usize)
        requires
            len <= Self::width(),
        ensures
            forall|i: nat| i < Self::width() ==> #[trigger] final(self).bit(i) == (i + len >= Self::width() || old(self).bit(i)),
    ;

    /// The `len` bits from `pos` on set, the others clear.
    fn with_range_ones(pos: usize, len: usize) -> (r: Self)
        requires
            pos < Self::width(),
            pos + len <= Self::width(),
        ensures
            forall|i: nat| i < Self::width() ==> #[trigger] r.bit(i) == (pos <= i < pos + len),
    ;

    /// The `len` bits from `pos` on clear, the others set.
    fn with_range_zeros(pos: usize, len: usize) -> (r: Self)
        requires
            pos + len <= Self::width(),
        ensures
            forall|i: nat| i < Self::width() ==> #[trigger] r.bit(i) == !(pos <= i < pos + len),
    ;
}

} // verus!
