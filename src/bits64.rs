//! `Bits64`: a string of 64 bits held in a `u64`, with constructors, range
//! operations, arithmetic and bitwise operators, and a traversal of its bits.

use vstd::prelude::*;
use crate::bit::Bit;
use crate::bits::{BitsConstructors, BitsRange};
use crate::bitstring::{
    Bitstring, has_bit64, set_bit64_of, rst_bit64_of, get_bit64_of, lemma_low64_bits,
    lemma_high64_bits, lemma_single64_bits, lemma_ops64_bits, lemma_shl64_bits,
};
use crate::mask::{bit64, low64, high64, pow2_u64, low_ones_u64, high_ones_u64, lemma_all_bits64};

verus! {

/// A string of 64 bits; bit 0 is the least significant bit of the field.
#[derive(Clone, Copy, Debug, PartialEq, Eq, Structural)]
pub struct Bits64(pub u64);

impl Bits64 {
    /// Sets every bit that is set in `other`.
    pub fn combine(&mut self, other: &Self)
        ensures
            final(self).0 == old(self).0 | other.0,
    {
        self.0 = self.0 | other.0;
    }

    /// Inverts bit `ndx`.
    pub fn flip(&mut self, ndx: usize)
        requires
            ndx < 64,
        ensures
            final(self).0 == old(self).0 ^ bit64(ndx as nat),
    {
        self.0 = self.0 ^ pow2_u64(ndx);
    }

    /// A traversal of the bits, from bit 0 up.
    pub fn into_iter(self) -> (r: IterBits64)
        ensures
            r.source() == self,
            r.position() == 0,
    {
        IterBits64::new(self)
    }
}

impl Bitstring for Bits64 {
    open spec fn width() -> nat {
        64
    }

    open spec fn bit(&self, ndx: nat) -> bool {
        has_bit64(self.0, ndx)
    }

    fn len() -> (r: usize) {
        64
    }

    fn get(&self, ndx: usize) -> (r: Bit) {
        get_bit64_of(self.0, ndx)
    }

    fn set(&mut self, ndx: usize) {
        self.0 = set_bit64_of(self.0, ndx);
    }

    fn rst(&mut self, ndx: usize) {
        self.0 = rst_bit64_of(self.0, ndx);
    }
}

impl BitsConstructors for Bits64 {
    fn zero() -> (r: Self) {
        let r = Bits64(0);
        proof {
            assert forall|i: nat| i < 64 implies !(#[trigger] r.bit(i)) by {
                lemma_all_bits64(i as u64);
            }
        }
        r
    }

    fn one() -> (r: Self) {
        let r = Bits64(1);
        proof {
            assert(bit64(0) == 1) by (bit_vector);
            lemma_single64_bits(0);
        }
        r
    }

    fn with_all_ones() -> (r: Self) {
        let r = Bits64(low_ones_u64(64));
        proof {
            lemma_low64_bits(64);
        }
        r
    }

    fn pow2(power: usize) -> (r: Self) {
        let r = Bits64(pow2_u64(power));
        proof {
            lemma_single64_bits(power as nat);
        }
        r
    }

    fn with_low_ones(len: usize) -> (r: Self) {
        let r = Bits64(low_ones_u64(len));
        proof {
            lemma_low64_bits(len as nat);
        }
        r
    }

    fn with_high_ones(len: usize) -> (r: Self) {
        let r = Bits64(high_ones_u64(len));
        proof {
            lemma_high64_bits(len as nat);
        }
        r
    }

    fn split_at(&self, pos: usize) -> (r: (Self, Self)) {
        let l = self.0 & low_ones_u64(pos);
        let h = self.0 & high_ones_u64(64 - pos);
        proof {
            lemma_ops64_bits(self.0, low64(pos as nat));
            lemma_ops64_bits(self.0, high64((64 - pos) as nat));
            lemma_low64_bits(pos as nat);
            lemma_high64_bits((64 - pos) as nat);
        }
        (Bits64(l), Bits64(h))
    }
}

impl BitsRange for Bits64 {
    fn rst_low_range(&mut self, len: usize) {
        let m = high_ones_u64(64 - len);
        proof {
            lemma_ops64_bits(self.0, m);
            lemma_high64_bits((64 - len) as nat);
        }
        self.0 = self.0 & m;
    }

    fn rst_high_range(&mut self, len: usize) {
        let m = low_ones_u64(64 - len);
        proof {
            lemma_ops64_bits(self.0, m);
            lemma_low64_bits((64 - len) as nat);
        }
        self.0 = self.0 & m;
    }

    fn set_low_range(&mut self, len: usize) {
        let m = low_ones_u64(len);
        proof {
            lemma_ops64_bits(self.0, m);
            lemma_low64_bits(len as nat);
        }
        self.0 = self.0 | m;
    }

    fn set_high_range(&mut self, len: usize) {
        let m = high_ones_u64(len);
        proof {
            lemma_ops64_bits(self.0, m);
            lemma_high64_bits(len as nat);
        }
        self.0 = self.0 | m;
    }

    fn with_range_ones(pos: usize, len: usize) -> (r: Self) {
        let mask = Bits64::with_low_ones(len);
        let r = mask << pos;
        proof {
            lemma_shl64_bits(mask.0, pos as nat);
            assert forall|i: nat| i < 64 implies #[trigger] r.bit(i) == (pos <= i < pos + len) by {
                if i >= pos {
                    assert(mask.bit((i - pos) as nat) == (i - pos < len));
                }
            }
        }
        r
    }

    fn with_range_zeros(pos: usize, len: usize) -> (r: Self) {
        let mut mask = Bits64::zero();
        if pos > 0 {
            mask = Bits64::with_low_ones(pos);
        }
        let high = Bits64::with_high_ones(64 - pos - len);
        let r = Bits64(mask.0 | high.0);
        proof {
            lemma_ops64_bits(mask.0, high.0);
            assert forall|i: nat| i < 64 implies #[trigger] r.bit(i) == !(pos <= i < pos + len) by {
                assert(mask.bit(i) == (i < pos));
                assert(high.bit(i) == (i + (64 - pos - len) >= 64));
            }
        }
        r
    }
}

/// A traversal of the bits of a `Bits64`, from bit 0 up.
pub struct IterBits64 {
    bits: Bits64,
    ndx: usize,
}

impl IterBits64 {
    /// The bit string traversed.
    pub closed spec fn source(&self) -> Bits64 {
        self.bits
    }

    /// The index of the next bit handed out.
    pub closed spec fn position(&self) -> nat {
        self.ndx as nat
    }

    /// Starts at bit 0 of `bits`.
    pub fn new(bits: Bits64) -> (r: Self)
        ensures
            r.source() == bits,
            r.position() == 0,
    {
        IterBits64 { bits, ndx: 0 }
    }

    /// Returns the next bit, or `None` after the last one.
    pub fn next(&mut self) -> (r: Option<Bit>)
        ensures
            final(self).source() == old(self).source(),
            old(self).position() >= 64 ==> r == None::<Bit> && final(self).position() == old(
                self,
            ).position(),
            old(self).position() < 64 ==> r == Some(Bit::of(old(self).source().bit(old(self).position())))
                && final(self).position() == old(self).position() + 1,
    {
        if self.ndx >= Bits64::len() {
            None
        } else {
            let v = self.bits.get(self.ndx);
            self.ndx = self.ndx + 1;
            Some(v)
        }
    }
}

impl From<u64> for Bits64 {
    fn from(x: u64) -> (r: Bits64)
        ensures
            r.0 == x,
    {
        Bits64(x)
    }
}

impl vstd::std_specs::convert::FromSpecImpl<u64> for Bits64 {
    open spec fn obeys_from_spec() -> bool {
        true
    }

    open spec fn from_spec(x: u64) -> Bits64 {
        Bits64(x)
    }
}

impl From<Bits64> for u64 {
    fn from(x: Bits64) -> (r: u64)
        ensures
            r == x.0,
    {
        x.0
    }
}

impl vstd::std_specs::convert::FromSpecImpl<Bits64> for u64 {
    open spec fn obeys_from_spec() -> bool {
        true
    }

    open spec fn from_spec(x: Bits64) -> u64 {
        x.0
    }
}

impl core::ops::Add for Bits64 {
    type Output = Bits64;

    fn add(self, rhs: Bits64) -> (r: Bits64) {
        Bits64(self.0 + rhs.0)
    }
}

impl vstd::std_specs::ops::AddSpecImpl for Bits64 {
    open spec fn obeys_add_spec() -> bool {
        true
    }

    open spec fn add_req(self, rhs: Bits64) -> bool {
        self.0 + rhs.0 <= u64::MAX
    }

    open spec fn add_spec(self, rhs: Bits64) -> Bits64 {
        Bits64((self.0 + rhs.0) as u64)
    }
}

impl core::ops::Sub for Bits64 {
    type Output = Bits64;

    fn sub(self, rhs: Bits64) -> (r: Bits64) {
        Bits64(self.0 - rhs.0)
    }
}

impl vstd::std_specs::ops::SubSpecImpl for Bits64 {
    open spec fn obeys_sub_spec() -> bool {
        true
    }

    open spec fn sub_req(self, rhs: Bits64) -> bool {
        self.0 >= rhs.0
    }

    open spec fn sub_spec(self, rhs: Bits64) -> Bits64 {
        Bits64((self.0 - rhs.0) as u64)
    }
}

impl core::ops::BitAnd for Bits64 {
    type Output = Bits64;

    fn bitand(self, rhs: Bits64) -> (r: Bits64) {
        Bits64(self.0 & rhs.0)
    }
}

impl vstd::std_specs::ops::BitAndSpecImpl for Bits64 {
    open spec fn obeys_bitand_spec() -> bool {
        true
    }

    open spec fn bitand_req(self, rhs: Bits64) -> bool {
        true
    }

    open spec fn bitand_spec(self, rhs: Bits64) -> Bits64 {
        Bits64(self.0 & rhs.0)
    }
}

impl core::ops::BitOr for Bits64 {
    type Output = Bits64;

    fn bitor(self, rhs: Bits64) -> (r: Bits64) {
        Bits64(self.0 | rhs.0)
    }
}

impl vstd::std_specs::ops::BitOrSpecImpl for Bits64 {
    open spec fn obeys_bitor_spec() -> bool {
        true
    }

    open spec fn bitor_req(self, rhs: Bits64) -> bool {
        true
    }

    open spec fn bitor_spec(self, rhs: Bits64) -> Bits64 {
        Bits64(self.0 | rhs.0)
    }
}

impl core::ops::BitXor for Bits64 {
    type Output = Bits64;

    fn bitxor(self, rhs: Bits64) -> (r: Bits64) {
        Bits64(self.0 ^ rhs.0)
    }
}

impl vstd::std_specs::ops::BitXorSpecImpl for Bits64 {
    open spec fn obeys_bitxor_spec() -> bool {
        true
    }

    open spec fn bitxor_req(self, rhs: Bits64) -> bool {
        true
    }

    open spec fn bitxor_spec(self, rhs: Bits64) -> Bits64 {
        Bits64(self.0 ^ rhs.0)
    }
}

impl core::ops::Not for Bits64 {
    type Output = Bits64;

    fn not(self) -> (r: Bits64) {
        Bits64(!self.0)
    }
}

impl vstd::std_specs::ops::NotSpecImpl for Bits64 {
    open spec fn obeys_not_spec() -> bool {
        true
    }

    open spec fn not_req(self) -> bool {
        true
    }

    open spec fn not_spec(self) -> Bits64 {
        Bits64(!self.0)
    }
}

impl core::ops::Shl<usize> for Bits64 {
    type Output = Bits64;

    fn shl(self, rhs: usize) -> (r: Bits64) {
        Bits64(self.0 << (rhs as u64))
    }
}

impl vstd::std_specs::ops::ShlSpecImpl<usize> for Bits64 {
    open spec fn obeys_shl_spec() -> bool {
        true
    }

    open spec fn shl_req(self, rhs: usize) -> bool {
        rhs < 64
    }

    open spec fn shl_spec(self, rhs: usize) -> Bits64 {
        Bits64(self.0 << (rhs as u64))
    }
}

impl core::ops::Shr<usize> for Bits64 {
    type Output = Bits64;

    fn shr(self, rhs: usize) -> (r: Bits64) {
        Bits64(self.0 >> (rhs as u64))
    }
}

impl vstd::std_specs::ops::ShrSpecImpl<usize> for Bits64 {
    open spec fn obeys_shr_spec() -> bool {
        true
    }

    open spec fn shr_req(self, rhs: usize) -> bool {
        rhs < 64
    }

    open spec fn shr_spec(self, rhs: usize) -> Bits64 {
        Bits64(self.0 >> (rhs as u64))
    }
}

impl core::ops::BitAndAssign for Bits64 {
    fn bitand_assign(&mut self, rhs: Bits64)
        ensures
            final(self).0 == old(self).0 & rhs.0,
    {
        self.0 = self.0 & rhs.0;
    }
}

impl core::ops::BitOrAssign for Bits64 {
    fn bitor_assign(&mut self, rhs: Bits64)
        ensures
            final(self).0 == old(self).0 | rhs.0,
    {
        self.0 = self.0 | rhs.0;
    }
}

impl core::ops::BitXorAssign for Bits64 {
    fn bitxor_assign(&mut self, rhs: Bits64)
        ensures
            final(self).0 == old(self).0 ^ rhs.0,
    {
        self.0 = self.0 ^ rhs.0;
    }
}

} // verus!
