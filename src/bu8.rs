//! `Bu8`: a string of 8 bits held in a `u8`.

use vstd::prelude::*;
use crate::bit::Bit;
use crate::bitstring::{Bitstring, has_bit8, set_bit8_of, rst_bit8_of, get_bit8_of};
use crate::mask::{bit8, low8, high8, pow2_u8, low_ones_u8, high_ones_u8};

verus! {

/// A string of 8 bits; bit 0 is the least significant bit of the field.
#[derive(Clone, Copy, Debug, PartialEq, Eq, Structural)]
pub struct Bu8(pub u8);

impl Bu8 {
    /// The value with no bit set.
    pub fn zero() -> (r: Bu8)
        ensures
            r.0 == 0,
    {
        Bu8(0)
    }

    /// The value with only bit 0 set.
    pub fn one() -> (r: Bu8)
        ensures
            r.0 == 1,
    {
        Bu8(1)
    }

    /// The value with only bit `power` set.
    pub fn pow2(power: usize) -> (r: Bu8)
        requires
            power < 8,
        ensures
            r.0 == bit8(power as nat),
    {
        Bu8(pow2_u8(power))
    }

    /// The value with its `len` low bits set.
    pub fn low_ones(len: usize) -> (r: Bu8)
        requires
            len <= 8,
        ensures
            r.0 == low8(len as nat),
    {
        Bu8(low_ones_u8(len))
    }

    /// The value with its `len` high bits set.
    pub fn high_ones(len: usize) -> (r: Bu8)
        requires
            len <= 8,
        ensures
            r.0 == high8(len as nat),
    {
        Bu8(high_ones_u8(len))
    }

    /// The value with the `len` bits from `pos` on set.
    pub fn range_ones(pos: usize, len: usize) -> (r: Bu8)
        requires
            pos < 8,
            len <= 8,
        ensures
            r.0 == low8(len as nat) << (pos as u8),
    {
        let mut mask = Bu8::low_ones(len);
        mask = mask << pos;
        mask
    }

    /// The value with all bits set except the `len` bits from `pos` on.
    pub fn range_zeros(pos: usize, len: usize) -> (r: Bu8)
        requires
            pos + len <= 8,
        ensures
            r.0 == low8(pos as nat) | high8((8 - pos - len) as nat),
    {
        let mut mask = Bu8::zero();
        if pos > 0 {
            mask = Bu8::low_ones(pos);
        }
        mask = mask | Bu8::high_ones(8 - pos - len);
        proof {
            if pos == 0 {
                assert(low8(0) == 0) by (bit_vector);
            }
        }
        mask
    }

    /// Clears the `len` low bits.
    pub fn rst_low(&mut self, len: usize)
        requires
            len <= 8,
        ensures
            final(self).0 == old(self).0 & high8((8 - len) as nat),
    {
        self.0 = self.0 & high_ones_u8(8 - len);
    }

    /// Clears the `len` high bits.
    pub fn rst_high(&mut self, len: usize)
        requires
            len <= 8,
        ensures
            final(self).0 == old(self).0 & low8((8 - len) as nat),
    {
        self.0 = self.0 & low_ones_u8(8 - len);
    }

    /// Sets the `len` low bits.
    pub fn set_low(&mut self, len: usize)
        requires
            len <= 8,
        ensures
            final(self).0 == old(self).0 | low8(len as nat),
    {
        self.0 = self.0 | low_ones_u8(len);
    }

    /// Sets the `len` high bits.
    pub fn set_high(&mut self, len: usize)
        requires
            len <= 8,
        ensures
            final(self).0 == old(self).0 | high8(len as nat),
    {
        self.0 = self.0 | high_ones_u8(len);
    }

    /// Sets every bit that is set in `other`.
    pub fn combine(&mut self, other: &Self)
        ensures
            final(self).0 == old(self).0 | other.0,
    {
        self.0 = self.0 | other.0;
    }

    /// Inverts bit `pos`.
    pub fn flip(&mut self, pos: usize)
        requires
            pos < 8,
        ensures
            final(self).0 == old(self).0 ^ bit8(pos as nat),
    {
        self.0 = self.0 ^ pow2_u8(pos);
    }

    /// Splits into the bits below `pos` and the bits from `pos` on.
    pub fn split(&self, pos: usize) -> (r: (Self, Self))
        requires
            pos <= 8,
        ensures
            r.0.0 == self.0 & low8(pos as nat),
            r.1.0 == self.0 & high8((8 - pos) as nat),
    {
        let l = self.0 & low_ones_u8(pos);
        let h = self.0 & high_ones_u8(8 - pos);
        (Bu8(l), Bu8(h))
    }
}

impl Bitstring for Bu8 {
    open spec fn width() -> nat {
        8
    }

    open spec fn bit(&self, ndx: nat) -> bool {
        has_bit8(self.0, ndx)
    }

    fn len() -> (r: usize) {
        8
    }

    fn get(&self, ndx: usize) -> (r: Bit) {
        get_bit8_of(self.0, ndx)
    }

    fn set(&mut self, ndx: usize) {
        self.0 = set_bit8_of(self.0, ndx);
    }

    fn rst(&mut self, ndx: usize) {
        self.0 = rst_bit8_of(self.0, ndx);
    }
}

impl From<u8> for Bu8 {
    fn from(x: u8) -> (r: Bu8)
        ensures
            r.0 == x,
    {
        Bu8(x)
    }
}

impl vstd::std_specs::convert::FromSpecImpl<u8> for Bu8 {
    open spec fn obeys_from_spec() -> bool {
        true
    }

    open spec fn from_spec(x: u8) -> Bu8 {
        Bu8(x)
    }
}

impl From<Bu8> for u8 {
    fn from(x: Bu8) -> (r: u8)
        ensures
            r == x.0,
    {
        x.0
    }
}

impl vstd::std_specs::convert::FromSpecImpl<Bu8> for u8 {
    open spec fn obeys_from_spec() -> bool {
        true
    }

    open spec fn from_spec(x: Bu8) -> u8 {
        x.0
    }
}

impl core::ops::BitAnd for Bu8 {
    type Output = Bu8;

    fn bitand(self, rhs: Bu8) -> (r: Bu8) {
        Bu8(self.0 & rhs.0)
    }
}

impl vstd::std_specs::ops::BitAndSpecImpl for Bu8 {
    open spec fn obeys_bitand_spec() -> bool {
        true
    }

    open spec fn bitand_req(self, rhs: Bu8) -> bool {
        true
    }

    open spec fn bitand_spec(self, rhs: Bu8) -> Bu8 {
        Bu8(self.0 & rhs.0)
    }
}

impl core::ops::BitOr for Bu8 {
    type Output = Bu8;

    fn bitor(self, rhs: Bu8) -> (r: Bu8) {
        Bu8(self.0 | rhs.0)
    }
}

impl vstd::std_specs::ops::BitOrSpecImpl for Bu8 {
    open spec fn obeys_bitor_spec() -> bool {
        true
    }

    open spec fn bitor_req(self, rhs: Bu8) -> bool {
        true
    }

    open spec fn bitor_spec(self, rhs: Bu8) -> Bu8 {
        Bu8(self.0 | rhs.0)
    }
}

impl core::ops::BitXor for Bu8 {
    type Output = Bu8;

    fn bitxor(self, rhs: Bu8) -> (r: Bu8) {
        Bu8(self.0 ^ rhs.0)
    }
}

impl vstd::std_specs::ops::BitXorSpecImpl for Bu8 {
    open spec fn obeys_bitxor_spec() -> bool {
        true
    }

    open spec fn bitxor_req(self, rhs: Bu8) -> bool {
        true
    }

    open spec fn bitxor_spec(self, rhs: Bu8) -> Bu8 {
        Bu8(self.0 ^ rhs.0)
    }
}

impl core::ops::Not for Bu8 {
    type Output = Bu8;

    fn not(self) -> (r: Bu8) {
        Bu8(!self.0)
    }
}

impl vstd::std_specs::ops::NotSpecImpl for Bu8 {
    open spec fn obeys_not_spec() -> bool {
        true
    }

    open spec fn not_req(self) -> bool {
        true
    }

    open spec fn not_spec(self) -> Bu8 {
        Bu8(!self.0)
    }
}

impl core::ops::Shl<usize> for Bu8 {
    type Output = Bu8;

    fn shl(self, rhs: usize) -> (r: Bu8) {
        Bu8(self.0 << (rhs as u8))
    }
}

impl vstd::std_specs::ops::ShlSpecImpl<usize> for Bu8 {
    open spec fn obeys_shl_spec() -> bool {
        true
    }

    open spec fn shl_req(self, rhs: usize) -> bool {
        rhs < 8
    }

    open spec fn shl_spec(self, rhs: usize) -> Bu8 {
        Bu8(self.0 << (rhs as u8))
    }
}

impl core::ops::Shr<usize> for Bu8 {
    type Output = Bu8;

    fn shr(self, rhs: usize) -> (r: Bu8) {
        Bu8(self.0 >> (rhs as u8))
    }
}

impl vstd::std_specs::ops::ShrSpecImpl<usize> for Bu8 {
    open spec fn obeys_shr_spec() -> bool {
        true
    }

    open spec fn shr_req(self, rhs: usize) -> bool {
        rhs < 8
    }

    open spec fn shr_spec(self, rhs: usize) -> Bu8 {
        Bu8(self.0 >> (rhs as u8))
    }
}

impl core::ops::BitAndAssign for Bu8 {
    fn bitand_assign(&mut self, rhs: Bu8)
        ensures
            final(self).0 == old(self).0 & rhs.0,
    {
        self.0 = self.0 & rhs.0;
    }
}

impl core::ops::BitOrAssign for Bu8 {
    fn bitor_assign(&mut self, rhs: Bu8)
        ensures
            final(self).0 == old(self).0 | rhs.0,
    {
        self.0 = self.0 | rhs.0;
    }
}

impl core::ops::BitXorAssign for Bu8 {
    fn bitxor_assign(&mut self, rhs: Bu8)
        ensures
            final(self).0 == old(self).0 ^ rhs.0,
    {
        self.0 = self.0 ^ rhs.0;
    }
}

} // verus!
