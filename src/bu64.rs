//! `Bu64`: a string of 64 bits held in a `u64`.

use vstd::prelude::*;
use crate::bit::Bit;
use crate::bitstring::{Bitstring, has_bit64, set_bit64_of, rst_bit64_of, get_bit64_of};
use crate::mask::{bit64, low64, high64, pow2_u64, low_ones_u64, high_ones_u64};

verus! {

/// A string of 64 bits; bit 0 is the least significant bit of the field.
#[derive(Clone, Copy, Debug, PartialEq, Eq, Structural)]
pub struct Bu64(pub u64);

impl Bu64 {
    /// The value with no bit set.
    pub fn zero() -> (r: Bu64)
        ensures
            r.0 == 0,
    {
        Bu64(0)
    }

    /// The value with only bit 0 set.
    pub fn one() -> (r: Bu64)
        ensures
            r.0 == 1,
    {
        Bu64(1)
    }

    /// The value with only bit `power` set.
    pub fn pow2(power: usize) -> (r: Bu64)
        requires
            power < 64,
        ensures
            r.0 == bit64(power as nat),
    {
        Bu64(pow2_u64(power))
    }

    /// The value with its `len` low bits set.
    pub fn low_ones(len: usize) -> (r: Bu64)
        requires
            len <= 64,
        ensures
            r.0 == low64(len as nat),
    {
        Bu64(low_ones_u64(len))
    }

    /// The value with its `len` high bits set.
    pub fn high_ones(len: usize) -> (r: Bu64)
        requires
            len <= 64,
        ensures
            r.0 == high64(len as nat),
    {
        Bu64(high_ones_u64(len))
    }

    /// The value with the `len` bits from `pos` on set.
    pub fn range_ones(pos: usize, len: usize) -> (r: Bu64)
        requires
            pos < 64,
            len <= 64,
        ensures
            r.0 == low64(len as nat) << (pos as u64),
    {
        let mut mask = Bu64::low_ones(len);
        mask = mask << pos;
        mask
    }

    /// The value with all bits set except the `len` bits from `pos` on.
    pub fn range_zeros(pos: usize, len: usize) -> (r: Bu64)
        requires
            pos + len <= 64,
        ensures
            r.0 == low64(pos as nat) | high64((64 - pos - len) as nat),
    {
        let mut mask = Bu64::zero();
        if pos > 0 {
            mask = Bu64::low_ones(pos);
        }
        mask = mask | Bu64::high_ones(64 - pos - len);
        proof {
            if pos == 0 {
                assert(low64(0) == 0) by (bit_vector);
            }
        }
        mask
    }

    /// Clears the `len` low bits.
    pub fn rst_low(&mut self, len: usize)
        requires
            len <= 64,
        ensures
            final(self).0 == old(self).0 & high64((64 - len) as nat),
    {
        self.0 = self.0 & high_ones_u64(64 - len);
    }

    /// Clears the `len` high bits.
    pub fn rst_high(&mut self, len: usize)
        requires
            len <= 64,
        ensures
            final(self).0 == old(self).0 & low64((64 - len) as nat),
    {
        self.0 = self.0 & low_ones_u64(64 - len);
    }

    /// Sets the `len` low bits.
    pub fn set_low(&mut self, len: usize)
        requires
            len <= 64,
        ensures
            final(self).0 == old(self).0 | low64(len as nat),
    {
        self.0 = self.0 | low_ones_u64(len);
    }

    /// Sets the `len` high bits.
    pub fn set_high(&mut self, len: usize)
        requires
            len <= 64,
        ensures
            final(self).0 == old(self).0 | high64(len as nat),
    {
        self.0 = self.0 | high_ones_u64(len);
    }

    /// Sets every bit that is set in `other`.
    pub fn combine(&mut self, other: &Self)
        ensures
            final(self).0 == old(self).0 | other.0,
    {
        self.0 = self.0 | other.0;
    }

    /// Inverts bit `pos`.
    pub fn flip(&mut self, pos: usize)
        requires
            pos < 64,
        ensures
            final(self).0 == old(self).0 ^ bit64(pos as nat),
    {
        self.0 = self.0 ^ pow2_u64(pos);
    }

    /// Splits into the bits below `pos` and the bits from `pos` on.
    pub fn split(&self, pos: usize) -> (r: (Self, Self))
        requires
            pos <= 64,
        ensures
            r.0.0 == self.0 & low64(pos as nat),
            r.1.0 == self.0 & high64((64 - pos) as nat),
    {
        let l = self.0 & low_ones_u64(pos);
        let h = self.0 & high_ones_u64(64 - pos);
        (Bu64(l), Bu64(h))
    }
}

impl Bitstring for Bu64 {
    open spec fn width() -> nat {
        64
    }

    open spec fn bit(&self, ndx: nat) -> bool {
        has_bit64(self.0, ndx)
    }

    fn len() -> (r: usize) {
        64
    }

    fn get(&self, ndx: usize) -> (r: Bit) {
        get_bit64_of(self.0, ndx)
    }

    fn set(&mut self, ndx: usize) {
        self.0 = set_bit64_of(self.0, ndx);
    }

    fn rst(&mut self, ndx: usize) {
        self.0 = rst_bit64_of(self.0, ndx);
    }
}

impl From<u64> for Bu64 {
    fn from(x: u64) -> (r: Bu64)
        ensures
            r.0 == x,
    {
        Bu64(x)
    }
}

impl vstd::std_specs::convert::FromSpecImpl<u64> for Bu64 {
    open spec fn obeys_from_spec() -> bool {
        true
    }

    open spec fn from_spec(x: u64) -> Bu64 {
        Bu64(x)
    }
}

impl From<Bu64> for u64 {
    fn from(x: Bu64) -> (r: u64)
        ensures
            r == x.0,
    {
        x.0
    }
}

impl vstd::std_specs::convert::FromSpecImpl<Bu64> for u64 {
    open spec fn obeys_from_spec() -> bool {
        true
    }

    open spec fn from_spec(x: Bu64) -> u64 {
        x.0
    }
}

impl core::ops::BitAnd for Bu64 {
    type Output = Bu64;

    fn bitand(self, rhs: Bu64) -> (r: Bu64) {
        Bu64(self.0 & rhs.0)
    }
}

impl vstd::std_specs::ops::BitAndSpecImpl for Bu64 {
    open spec fn obeys_bitand_spec() -> bool {
        true
    }

    open spec fn bitand_req(self, rhs: Bu64) -> bool {
        true
    }

    open spec fn bitand_spec(self, rhs: Bu64) -> Bu64 {
        Bu64(self.0 & rhs.0)
    }
}

impl core::ops::BitOr for Bu64 {
    type Output = Bu64;

    fn bitor(self, rhs: Bu64) -> (r: Bu64) {
        Bu64(self.0 | rhs.0)
    }
}

impl vstd::std_specs::ops::BitOrSpecImpl for Bu64 {
    open spec fn obeys_bitor_spec() -> bool {
        true
    }

    open spec fn bitor_req(self, rhs: Bu64) -> bool {
        true
    }

    open spec fn bitor_spec(self, rhs: Bu64) -> Bu64 {
        Bu64(self.0 | rhs.0)
    }
}

impl core::ops::BitXor for Bu64 {
    type Output = Bu64;

    fn bitxor(self, rhs: Bu64) -> (r: Bu64) {
        Bu64(self.0 ^ rhs.0)
    }
}

impl vstd::std_specs::ops::BitXorSpecImpl for Bu64 {
    open spec fn obeys_bitxor_spec() -> bool {
        true
    }

    open spec fn bitxor_req(self, rhs: Bu64) -> bool {
        true
    }

    open spec fn bitxor_spec(self, rhs: Bu64) -> Bu64 {
        Bu64(self.0 ^ rhs.0)
    }
}

impl core::ops::Not for Bu64 {
    type Output = Bu64;

    fn not(self) -> (r: Bu64) {
        Bu64(!self.0)
    }
}

impl vstd::std_specs::ops::NotSpecImpl for Bu64 {
    open spec fn obeys_not_spec() -> bool {
        true
    }

    open spec fn not_req(self) -> bool {
        true
    }

    open spec fn not_spec(self) -> Bu64 {
        Bu64(!self.0)
    }
}

impl core::ops::Shl<usize> for Bu64 {
    type Output = Bu64;

    fn shl(self, rhs: usize) -> (r: Bu64) {
        Bu64(self.0 << (rhs as u64))
    }
}

impl vstd::std_specs::ops::ShlSpecImpl<usize> for Bu64 {
    open spec fn obeys_shl_spec() -> bool {
        true
    }

    open spec fn shl_req(self, rhs: usize) -> bool {
        rhs < 64
    }

    open spec fn shl_spec(self, rhs: usize) -> Bu64 {
        Bu64(self.0 << (rhs as u64))
    }
}

impl core::ops::Shr<usize> for Bu64 {
    type Output = Bu64;

    fn shr(self, rhs: usize) -> (r: Bu64) {
        Bu64(self.0 >> (rhs as u64))
    }
}

impl vstd::std_specs::ops::ShrSpecImpl<usize> for Bu64 {
    open spec fn obeys_shr_spec() -> bool {
        true
    }

    open spec fn shr_req(self, rhs: usize) -> bool {
        rhs < 64
    }

    open spec fn shr_spec(self, rhs: usize) -> Bu64 {
        Bu64(self.0 >> (rhs as u64))
    }
}

impl core::ops::BitAndAssign for Bu64 {
    fn bitand_assign(&mut self, rhs: Bu64)
        ensures
            final(self).0 == old(self).0 & rhs.0,
    {
        self.0 = self.0 & rhs.0;
    }
}

impl core::ops::BitOrAssign for Bu64 {
    fn bitor_assign(&mut self, rhs: Bu64)
        ensures
            final(self).0 == old(self).0 | rhs.0,
    {
        self.0 = self.0 | rhs.0;
    }
}

impl core::ops::BitXorAssign for Bu64 {
    fn bitxor_assign(&mut self, rhs: Bu64)
        ensures
            final(self).0 == old(self).0 ^ rhs.0,
    {
        self.0 = self.0 ^ rhs.0;
    }
}

} // verus!
