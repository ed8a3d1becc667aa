//! `Bits8`: a string of 8 bits held in a `u8`, with constructors, range
//! operations, arithmetic and bitwise operators, and a traversal of its bits.

use vstd::prelude::*;
use crate::bit::Bit;
use crate::bits::{BitsConstructors, BitsRange};
use crate::bitstring::{
    Bitstring, has_bit8, set_bit8_of, rst_bit8_of, get_bit8_of, lemma_low8_bits,
    lemma_high8_bits, lemma_single8_bits, lemma_ops8_bits, lemma_shl8_bits,
};
use crate::mask::{bit8, low8, high8, pow2_u8, low_ones_u8, high_ones_u8, lemma_all_bits8};

verus! {

/// A string of 8 bits; bit 0 is the least significant bit of the field.
#[derive(Clone, Copy, Debug, PartialEq, Eq, Structural)]
pub struct Bits8(pub u8);

impl Bits8 {
    /// Sets every bit that is set in `other`.
    pub fn combine(&mut self, other: &Self)
        ensures
            final(self).0 == old(self).0 | other.0,
    {
        self.0 = self.0 | other.0;
    }

    /// Inverts bit `ndx`.
    pub fn flip(&mut self, ndx: usize)
        requires
            ndx < 8,
        ensures
            final(self).0 == old(self).0 ^ bit8(ndx as nat),
    {
        self.0 = self.0 ^ pow2_u8(ndx);
    }

    /// A traversal of the bits, from bit 0 up.
    pub fn into_iter(self) -> (r: IterBits8)
        ensures
            r.source() == self,
            r.position() == 0,
    {
        IterBits8::new(self)
    }
}

impl Bitstring for Bits8 {
    open spec fn width() -> nat {
        8
    }

    open spec fn bit(&self, ndx: nat) -> bool {
        has_bit8(self.0, ndx)
    }

    fn len() -> (r: usize) {
        8
    }

    fn get(&self, ndx: usize) -> (r: Bit) {
        get_bit8_of(self.0, ndx)
    }

    fn set(&mut self, ndx: usize) {
        self.0 = set_bit8_of(self.0, ndx);
    }

    fn rst(&mut self, ndx: usize) {
        self.0 = rst_bit8_of(self.0, ndx);
    }
}

impl BitsConstructors for Bits8 {
    fn zero() -> (r: Self) {
        let r = Bits8(0);
        proof {
            assert forall|i: nat| i < 8 implies !(#[trigger] r.bit(i)) by {
                lemma_all_bits8(i as u8);
            }
        }
        r
    }

    fn one() -> (r: Self) {
        let r = Bits8(1);
        proof {
            assert(bit8(0) == 1) by (bit_vector);
            lemma_single8_bits(0);
        }
        r
    }

    fn with_all_ones() -> (r: Self) {
        let r = Bits8(low_ones_u8(8));
        proof {
            lemma_low8_bits(8);
        }
        r
    }

    fn pow2(power: usize) -> (r: Self) {
        let r = Bits8(pow2_u8(power));
        proof {
            lemma_single8_bits(power as nat);
        }
        r
    }

    fn with_low_ones(len: usize) -> (r: Self) {
        let r = Bits8(low_ones_u8(len));
        proof {
            lemma_low8_bits(len as nat);
        }
        r
    }

    fn with_high_ones(len: usize) -> (r: Self) {
        let r = Bits8(high_ones_u8(len));
        proof {
            lemma_high8_bits(len as nat);
        }
        r
    }

    fn split_at(&self, pos: usize) -> (r: (Self, Self)) {
        let l = self.0 & low_ones_u8(pos);
        let h = self.0 & high_ones_u8(8 - pos);
        proof {
            lemma_ops8_bits(self.0, low8(pos as nat));
            lemma_ops8_bits(self.0, high8((8 - pos) as nat));
            lemma_low8_bits(pos as nat);
            lemma_high8_bits((8 - pos) as nat);
        }
        (Bits8(l), Bits8(h))
    }
}

impl BitsRange for Bits8 {
    fn rst_low_range(&mut self, len: usize) {
        let m = high_ones_u8(8 - len);
        proof {
            lemma_ops8_bits(self.0, m);
            lemma_high8_bits((8 - len) as nat);
        }
        self.0 = self.0 & m;
    }

    fn rst_high_range(&mut self, len: usize) {
        let m = low_ones_u8(8 - len);
        proof {
            lemma_ops8_bits(self.0, m);
            lemma_low8_bits((8 - len) as nat);
        }
        self.0 = self.0 & m;
    }

    fn set_low_range(&mut self, len: usize) {
        let m = low_ones_u8(len);
        proof {
            lemma_ops8_bits(self.0, m);
            lemma_low8_bits(len as nat);
        }
        self.0 = self.0 | m;
    }

    fn set_high_range(&mut self, len: usize) {
        let m = high_ones_u8(len);
        proof {
            lemma_ops8_bits(self.0, m);
            lemma_high8_bits(len as nat);
        }
        self.0 = self.0 | m;
    }

    fn with_range_ones(pos: usize, len: usize) -> (r: Self) {
        let mask = Bits8::with_low_ones(len);
        let r = mask << pos;
        proof {
            lemma_shl8_bits(mask.0, pos as nat);
            assert forall|i: nat| i < 8 implies #[trigger] r.bit(i) == (pos <= i < pos + len) by {
                if i >= pos {
                    assert(mask.bit((i - pos) as nat) == (i - pos < len));
                }
            }
        }
        r
    }

    fn with_range_zeros(pos: usize, len: usize) -> (r: Self) {
        let mut mask = Bits8::zero();
        if pos > 0 {
            mask = Bits8::with_low_ones(pos);
        }
        let high = Bits8::with_high_ones(8 - pos - len);
        let r = Bits8(mask.0 | high.0);
        proof {
            lemma_ops8_bits(mask.0, high.0);
            assert forall|i: nat| i < 8 implies #[trigger] r.bit(i) == !(pos <= i < pos + len) by {
                assert(mask.bit(i) == (i < pos));
                assert(high.bit(i) == (i + (8 - pos - len) >= 8));
            }
        }
        r
    }
}

/// A traversal of the bits of a `Bits8`, from bit 0 up.
pub struct IterBits8 {
    bits: Bits8,
    ndx: usize,
}

impl IterBits8 {
    /// The bit string traversed.
    pub closed spec fn source(&self) -> Bits8 {
        self.bits
    }

    /// The index of the next bit handed out.
    pub closed spec fn position(&self) -> nat {
        self.ndx as nat
    }

    /// Starts at bit 0 of `bits`.
    pub fn new(bits: Bits8) -> (r: Self)
        ensures
            r.source() == bits,
            r.position() == 0,
    {
        IterBits8 { bits, ndx: 0 }
    }

    /// Returns the next bit, or `None` after the last one.
    pub fn next(&mut self) -> (r: Option<Bit>)
        ensures
            final(self).source() == old(self).source(),
            old(self).position() >= 8 ==> r == None::<Bit> && final(self).position() == old(
                self,
            ).position(),
            old(self).position() < 8 ==> r == Some(Bit::of(old(self).source().bit(old(self).position())))
                && final(self).position() == old(self).position() + 1,
    {
        if self.ndx >= Bits8::len() {
            None
        } else {
            let v = self.bits.get(self.ndx);
            self.ndx = self.ndx + 1;
            Some(v)
        }
    }
}

impl From<u8> for Bits8 {
    fn from(x: u8) -> (r: Bits8)
        ensures
            r.0 == x,
    {
        Bits8(x)
    }
}

impl vstd::std_specs::convert::FromSpecImpl<u8> for Bits8 {
    open spec fn obeys_from_spec() -> bool {
        true
    }

    open spec fn from_spec(x: u8) -> Bits8 {
        Bits8(x)
    }
}

impl From<Bits8> for u8 {
    fn from(x: Bits8) -> (r: u8)
        ensures
            r == x.0,
    {
        x.0
    }
}

impl vstd::std_specs::convert::FromSpecImpl<Bits8> for u8 {
    open spec fn obeys_from_spec() -> bool {
        true
    }

    open spec fn from_spec(x: Bits8) -> u8 {
        x.0
    }
}

impl core::ops::Add for Bits8 {
    type Output = Bits8;

    fn add(self, rhs: Bits8) -> (r: Bits8) {
        Bits8(self.0 + rhs.0)
    }
}

impl vstd::std_specs::ops::AddSpecImpl for Bits8 {
    open spec fn obeys_add_spec() -> bool {
        true
    }

    open spec fn add_req(self, rhs: Bits8) -> bool {
        self.0 + rhs.0 <= u8::MAX
    }

    open spec fn add_spec(self, rhs: Bits8) -> Bits8 {
        Bits8((self.0 + rhs.0) as u8)
    }
}

impl core::ops::Sub for Bits8 {
    type Output = Bits8;

    fn sub(self, rhs: Bits8) -> (r: Bits8) {
        Bits8(self.0 - rhs.0)
    }
}

impl vstd::std_specs::ops::SubSpecImpl for Bits8 {
    open spec fn obeys_sub_spec() -> bool {
        true
    }

    open spec fn sub_req(self, rhs: Bits8) -> bool {
        self.0 >= rhs.0
    }

    open spec fn sub_spec(self, rhs: Bits8) -> Bits8 {
        Bits8((self.0 - rhs.0) as u8)
    }
}

impl core::ops::BitAnd for Bits8 {
    type Output = Bits8;

    fn bitand(self, rhs: Bits8) -> (r: Bits8) {
        Bits8(self.0 & rhs.0)
    }
}

impl vstd::std_specs::ops::BitAndSpecImpl for Bits8 {
    open spec fn obeys_bitand_spec() -> bool {
        true
    }

    open spec fn bitand_req(self, rhs: Bits8) -> bool {
        true
    }

    open spec fn bitand_spec(self, rhs: Bits8) -> Bits8 {
        Bits8(self.0 & rhs.0)
    }
}

impl core::ops::BitOr for Bits8 {
    type Output = Bits8;

    fn bitor(self, rhs: Bits8) -> (r: Bits8) {
        Bits8(self.0 | rhs.0)
    }
}

impl vstd::std_specs::ops::BitOrSpecImpl for Bits8 {
    open spec fn obeys_bitor_spec() -> bool {
        true
    }

    open spec fn bitor_req(self, rhs: Bits8) -> bool {
        true
    }

    open spec fn bitor_spec(self, rhs: Bits8) -> Bits8 {
        Bits8(self.0 | rhs.0)
    }
}

impl core::ops::BitXor for Bits8 {
    type Output = Bits8;

    fn bitxor(self, rhs: Bits8) -> (r: Bits8) {
        Bits8(self.0 ^ rhs.0)
    }
}

impl vstd::std_specs::ops::BitXorSpecImpl for Bits8 {
    open spec fn obeys_bitxor_spec() -> bool {
        true
    }

    open spec fn bitxor_req(self, rhs: Bits8) -> bool {
        true
    }

    open spec fn bitxor_spec(self, rhs: Bits8) -> Bits8 {
        Bits8(self.0 ^ rhs.0)
    }
}

impl core::ops::Not for Bits8 {
    type Output = Bits8;

    fn not(self) -> (r: Bits8) {
        Bits8(!self.0)
    }
}

impl vstd::std_specs::ops::NotSpecImpl for Bits8 {
    open spec fn obeys_not_spec() -> bool {
        true
    }

    open spec fn not_req(self) -> bool {
        true
    }

    open spec fn not_spec(self) -> Bits8 {
        Bits8(!self.0)
    }
}

impl core::ops::Shl<usize> for Bits8 {
    type Output = Bits8;

    fn shl(self, rhs: usize) -> (r: Bits8) {
        Bits8(self.0 << (rhs as u8))
    }
}

impl vstd::std_specs::ops::ShlSpecImpl<usize> for Bits8 {
    open spec fn obeys_shl_spec() -> bool {
        true
    }

    open spec fn shl_req(self, rhs: usize) -> bool {
        rhs < 8
    }

    open spec fn shl_spec(self, rhs: usize) -> Bits8 {
        Bits8(self.0 << (rhs as u8))
    }
}

impl core::ops::Shr<usize> for Bits8 {
    type Output = Bits8;

    fn shr(self, rhs: usize) -> (r: Bits8) {
        Bits8(self.0 >> (rhs as u8))
    }
}

impl vstd::std_specs::ops::ShrSpecImpl<usize> for Bits8 {
    open spec fn obeys_shr_spec() -> bool {
        true
    }

    open spec fn shr_req(self, rhs: usize) -> bool {
        rhs < 8
    }

    open spec fn shr_spec(self, rhs: usize) -> Bits8 {
        Bits8(self.0 >> (rhs as u8))
    }
}

impl core::ops::BitAndAssign for Bits8 {
    fn bitand_assign(&mut self, rhs: Bits8)
        ensures
            final(self).0 == old(self).0 & rhs.0,
    {
        self.0 = self.0 & rhs.0;
    }
}

impl core::ops::BitOrAssign for Bits8 {
    fn bitor_assign(&mut self, rhs: Bits8)
        ensures
            final(self).0 == old(self).0 | rhs.0,
    {
        self.0 = self.0 | rhs.0;
    }
}

impl core::ops::BitXorAssign for Bits8 {
    fn bitxor_assign(&mut self, rhs: Bits8)
        ensures
            final(self).0 == old(self).0 ^ rhs.0,
    {
        self.0 = self.0 ^ rhs.0;
    }
}

} // verus!
