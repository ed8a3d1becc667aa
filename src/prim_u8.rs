//! The bit-string traits implemented directly on `u8`.

use vstd::prelude::*;
use vstd::string::StringExecFns;
use crate::render::{decimal, binary8, pad_left, decimal_u64, binary_u8, append_padded};
use crate::bit::Bit;
use crate::bitstring::{
    Bitstring, has_bit8, set_bit8_of, rst_bit8_of, get_bit8_of, lemma_low8_bits,
    lemma_high8_bits, lemma_single8_bits, lemma_ops8_bits, lemma_shl8_bits,
    lemma_not8_bits, lemma_shr8_bits,
};
use crate::bitstring_ops::{
    BitstringConstructor, BitstringOps, BitstringShift, BitstringRange, BitstringCombinators,
    BitstringInto, BitstringDebug,
};
use crate::mask::{bit8, low8, high8, pow2_u8, low_ones_u8, high_ones_u8, lemma_all_bits8};

verus! {

impl Bitstring for u8 {
    open spec fn width() -> nat {
        8
    }

    open spec fn bit(&self, ndx: nat) -> bool {
        has_bit8(*self, ndx)
    }

    fn len() -> (r: usize) {
        8
    }

    fn get(&self, ndx: usize) -> (r: Bit) {
        get_bit8_of(*self, ndx)
    }

    fn set(&mut self, ndx: usize) {
        *self = set_bit8_of(*self, ndx);
    }

    fn rst(&mut self, ndx: usize) {
        *self = rst_bit8_of(*self, ndx);
    }
}

impl BitstringConstructor for u8 {
    fn zero() -> (r: Self) {
        proof {
            assert forall|i: nat| i < 8 implies !(#[trigger] has_bit8(0, i)) by {
                lemma_all_bits8(i as u8);
            }
        }
        0
    }

    fn one() -> (r: Self) {
        proof {
            assert(bit8(0) == 1) by (bit_vector);
            lemma_single8_bits(0);
        }
        1
    }

    fn pow2(power: usize) -> (r: Self) {
        proof {
            lemma_single8_bits(power as nat);
        }
        pow2_u8(power)
    }

    fn low_ones(len: usize) -> (r: Self) {
        proof {
            lemma_low8_bits(len as nat);
        }
        low_ones_u8(len)
    }

    fn high_ones(len: usize) -> (r: Self) {
        proof {
            lemma_high8_bits(len as nat);
        }
        high_ones_u8(len)
    }
}

impl BitstringOps for u8 {
    fn and(&mut self, other: &Self) {
        proof {
            lemma_ops8_bits(*old(self), *other);
        }
        *self = *self & *other;
    }

    fn or(&mut self, other: &Self) {
        proof {
            lemma_ops8_bits(*old(self), *other);
        }
        *self = *self | *other;
    }

    fn xor(&mut self, other: &Self) {
        proof {
            lemma_ops8_bits(*old(self), *other);
        }
        *self = *self ^ *other;
    }

    fn neg(&mut self) {
        proof {
            lemma_not8_bits(*old(self));
        }
        *self = !*self;
    }
}

impl BitstringShift for u8 {
    fn shift_left(&mut self, with: usize) {
        proof {
            lemma_shl8_bits(*old(self), with as nat);
        }
        *self = *self << (with as u8);
    }

    fn shift_right(&mut self, with: usize) {
        proof {
            lemma_shr8_bits(*old(self), with as nat);
        }
        *self = *self >> (with as u8);
    }
}

impl BitstringRange for u8 {
    fn rst_low(&mut self, len: usize) {
        let m = high_ones_u8(8 - len);
        proof {
            lemma_ops8_bits(*old(self), m);
            lemma_high8_bits((8 - len) as nat);
        }
        *self = *self & m;
    }

    fn rst_high(&mut self, len: usize) {
        let m = low_ones_u8(8 - len);
        proof {
            lemma_ops8_bits(*old(self), m);
            lemma_low8_bits((8 - len) as nat);
        }
        *self = *self & m;
    }

    fn set_low(&mut self, len: usize) {
        let m = low_ones_u8(len);
        proof {
            lemma_ops8_bits(*old(self), m);
            lemma_low8_bits(len as nat);
        }
        *self = *self | m;
    }

    fn set_high(&mut self, len: usize) {
        let m = high_ones_u8(len);
        proof {
            lemma_ops8_bits(*old(self), m);
            lemma_high8_bits(len as nat);
        }
        *self = *self | m;
    }
}

impl BitstringCombinators for u8 {
    fn combine(&mut self, other: &Self) {
        self.or(other);
    }

    fn flip(&mut self, pos: usize) {
        let m = pow2_u8(pos);
        proof {
            lemma_ops8_bits(*old(self), m);
            lemma_single8_bits(pos as nat);
        }
        *self = *self ^ m;
    }

    fn split(&self, pos: usize) -> (r: (Self, Self)) {
        let l = *self & low_ones_u8(pos);
        let h = *self & high_ones_u8(8 - pos);
        proof {
            lemma_ops8_bits(*self, low8(pos as nat));
            lemma_ops8_bits(*self, high8((8 - pos) as nat));
            lemma_low8_bits(pos as nat);
            lemma_high8_bits((8 - pos) as nat);
        }
        (l, h)
    }
}

impl BitstringInto for u8 {
    fn to_u8s(&self) -> (r: Vec<u8>) {
        vec![*self]
    }

    fn to_bits(&self) -> (r: Vec<Bit>) {
        bits_of_u8(*self)
    }
}

/// The bits of `x`, from bit 0 up.
fn bits_of_u8(x: u8) -> (r: Vec<Bit>)
    ensures
        r@.len() == 8,
        forall|i: int| 0 <= i < 8 ==> #[trigger] r@[i] == Bit::of(has_bit8(x, i as nat)),
{
    let mut bits: Vec<Bit> = Vec::new();
    let mut i: usize = 0;
    while i < 8
        invariant
            i <= 8,
            bits@.len() == i,
            forall|j: int| 0 <= j < i ==> #[trigger] bits@[j] == Bit::of(has_bit8(x, j as nat)),
        decreases 8 - i,
    {
        bits.push(get_bit8_of(x, i));
        i += 1;
    }
    bits
}

/// The rendering of `x`: `u8:`, its decimal value padded to three places,
/// then its eight binary digits between bars.
pub open spec fn debug_text_u8(x: u8) -> Seq<char> {
    seq!['u', '8', ':'] + pad_left(decimal(x as nat), 3) + seq!['|'] + binary8(x) + seq!['|']
}

/// Renders `x` as `debug_text_u8` describes.
pub fn debug_u8(x: u8) -> (r: String)
    ensures
        r@ == debug_text_u8(x),
{
    let mut s = String::new();
    s.append("u8:");
    append_padded(&mut s, &decimal_u64(x as u64), 3);
    s.append("|");
    let bits = binary_u8(x);
    s.append(bits.as_str());
    s.append("|");
    proof {
        reveal_strlit("u8:");
        reveal_strlit("|");
        assert(s@ =~= debug_text_u8(x));
    }
    s
}

impl BitstringDebug for u8 {
    fn bdebug(&self) -> (r: String)
        ensures
            r@ == debug_text_u8(*self),
    {
        debug_u8(*self)
    }
}

} // verus!
