//! Operations on bit strings held directly in unsigned integers: builders,
//! bitwise operations, shifts, runs of bits at either end, and views.

use vstd::prelude::*;
use crate::bit::Bit;
use crate::bitstring::{Bitstring, has_bit8};

verus! {

/// Ways to build a bit string.
pub trait BitstringConstructor: Bitstring {
    /// No bit set.
    fn zero() -> (r: Self)
        ensures
            forall|i: nat| i < Self::width() ==> !(#[trigger] r.bit(i)),
    ;

    /// Only bit 0 set.
    fn one() -> (r: Self)
        ensures
            forall|i: nat| i < Self::width() ==> #[trigger] r.bit(i) == (i == 0),
    ;

    /// Only bit `power` set.
    fn pow2(power: usize) -> (r: Self)
        requires
            power < Self::width(),
        ensures
            forall|i: nat| i < Self::width() ==> #[trigger] r.bit(i) == (i == power),
    ;

    /// The `len` lowest bits set.
    fn low_ones(len: usize) -> (r: Self)
        requires
            len <= Self::width(),
        ensures
            forall|i: nat| i < Self::width() ==> #[trigger] r.bit(i) == (i < len),
    ;

    /// The `len` highest bits set.
    fn high_ones(len: usize) -> (r: Self)
        requires
            len <= Self::width(),
        ensures
            forall|i: nat| i < Self::width() ==> #[trigger] r.bit(i) == (i + len >= Self::width()),
    ;
}

/// Bitwise operations in place.
pub trait BitstringOps: Bitstring {
    /// Keeps the bits set in both.
    fn and(&mut self, other: &Self)
        ensures
            forall|i: nat| i < Self::width() ==> #[trigger] final(self).bit(i) == (old(self).bit(i) && other.bit(i)),
    ;

    /// Keeps the bits set in either.
    fn or(&mut self, other: &Self)
        ensures
            forall|i: nat| i < Self::width() ==> #[trigger] final(self).bit(i) == (old(self).bit(i) || other.bit(i)),
    ;

    /// Keeps the bits set in exactly one.
    fn xor(&mut self, other: &Self)
        ensures
            forall|i: nat| i < Self::width() ==> #[trigger] final(self).bit(i) == (old(self).bit(i) != other.bit(i)),
    ;

    /// Inverts every bit.
    fn neg(&mut self)
        ensures
            forall|i: nat| i < Self::width() ==> #[trigger] final(self).bit(i) == !old(self).bit(i),
    ;
}

/// Shifts in place; bits shifted out are lost and zeros come in.
pub trait BitstringShift: Bitstring {
    /// Moves every bit `with` places up.
    fn shift_left(&mut self, with: usize)
        requires
            with < Self::width(),
        ensures
            forall|i: nat| i < Self::width() ==> #[trigger] final(self).bit(i) == (i >= with && old(self).bit((i - with) as nat)),
    ;

    /// Moves every bit `with` places down.
    fn shift_right(&mut self, with: usize)
        requires
            with < Self::width(),
        ensures
            forall|i: nat| i < Self::width() ==> #[trigger] final(self).bit(i) == (i + with < Self::width() && old(self).bit((i + with) as nat)),
    ;
}

/// Runs of bits at either end.
pub trait BitstringRange: Bitstring {
    /// Clears the `len` lowest bits.
    fn rst_low(&mut self, len: usize)
        requires
            len <= Self::width(),
        ensures
            forall|i: nat| i < Self::width() ==> #[trigger] final(self).bit(i) == (i >= len && old(self).bit(i)),
    ;

    /// Clears the `len` highest bits.
    fn rst_high(&mut self, len: usize)
        requires
            len <= Self::width(),
        ensures
            forall|i: nat| i < Self::width() ==> #[trigger] final(self).bit(i) == (i + len < Self::width() && old(self).bit(i)),
    ;

    /// Sets the `len` lowest bits.
    fn set_low(&mut self, len: usize)
        requires
            len <= Self::width(),
        ensures
            forall|i: nat| i < Self::width() ==> #[trigger] final(self).bit(i) == (i < len || old(self).bit(i)),
    ;

    /// Sets the `len` highest bits.
    fn set_high(&mut self, len: usize)
        requires
            len <= Self::width(),
        ensures
            forall|i: nat| i < Self::width() ==> #[trigger] final(self).bit(i) == (i + len >= Self::width() || old(self).bit(i)),
    ;
}

/// Splitting, merging and flipping.
pub trait BitstringCombinators: Bitstring {
    /// Sets every bit that is set in `other`.
    fn combine(&mut self, other: &Self)
        ensures
            forall|i: nat| i < Self::width() ==> #[trigger] final(self).bit(i) == (old(self).bit(i) || other.bit(i)),
    ;

    /// Inverts bit `pos`.
    fn flip(&mut self, pos: usize)
        requires
            pos < Self::width(),
        ensures
            forall|i: nat| i < Self::width() ==> #[trigger] final(self).bit(i) == (old(self).bit(i) != (i == pos)),
    ;

    /// The bits below `pos`, and the bits from `pos` on.
    fn split(&self, pos: usize) -> (r: (Self, Self))
        requires
            pos <= Self::width(),
        ensures
            forall|i: nat| i < Self::width() ==> #[trigger] r.0.bit(i) == (i < pos && self.bit(i)),
            forall|i: nat| i < Self::width() ==> #[trigger] r.1.bit(i) == (i >= pos && self.bit(i)),
    ;
}

/// Views of a bit string as bytes or as bits.
pub trait BitstringInto: Bitstring {
    /// The bytes, least significant first.
    fn to_u8s(&self) -> (r: Vec<u8>)
        ensures
            r@.len() * 8 == Self::width(),
            forall|i: nat| i < Self::width() ==> (#[trigger] self.bit(i)) == has_bit8(r@[(i / 8) as int], i % 8),
    ;

    /// The bits, from bit 0 up.
    fn to_bits(&self) -> (r: Vec<Bit>)
        ensures
            r@.len() == Self::width(),
            forall|i: int| 0 <= i < r@.len() ==> #[trigger] r@[i] == Bit::of(self.bit(i as nat)),
    ;
}

/// A readable rendering of a bit string.
pub trait BitstringDebug {
    /// The value in decimal, then its bits, most significant first.
    fn bdebug(&self) -> String;
}

} // verus!
