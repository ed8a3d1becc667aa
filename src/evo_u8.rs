//! The genome bit-string interface implemented on `u8`.

use vstd::prelude::*;
use crate::bit::Bit;
use crate::bitstring::{
    has_bit8, get_bit8_of, lemma_low8_bits, lemma_high8_bits, lemma_single8_bits,
    lemma_ops8_bits, lemma_shl8_bits, lemma_not8_bits,
};
use crate::bitstring_ops::BitstringInto;
use crate::prim_u8::{debug_u8, debug_text_u8};
use crate::evolution::{Bitstring, BitstringDebug};
use crate::mask::{
    low8, high8, pow2_u8, low_ones_u8, high_ones_u8, lemma_all_bits8,
    lemma_double_plus_one8, lemma_bit_zero8, lemma_shl_bit8,
};

verus! {

impl Bitstring for u8 {
    open spec fn bwidth() -> nat {
        8
    }

    open spec fn bit_at(&self, i: nat) -> bool {
        has_bit8(*self, i)
    }

    proof fn lemma_bwidth() {
    }

    fn band(&mut self, other: &Self) {
        proof {
            lemma_ops8_bits(*old(self), *other);
        }
        *self = *self & *other;
    }

    fn bget(&self, ndx: usize) -> (r: Bit) {
        get_bit8_of(*self, ndx)
    }

    fn blen(&self) -> (r: usize) {
        8
    }

    fn bneg(&mut self) {
        proof {
            lemma_not8_bits(*old(self));
        }
        *self = !*self;
    }

    fn bone() -> (r: Self) {
        proof {
            lemma_bit_zero8();
            lemma_single8_bits(0);
        }
        1
    }

    fn bone_low(len: usize) -> (r: Self) {
        if len == 0 {
            proof {
                assert forall|i: nat| i < 8 implies !(#[trigger] has_bit8(0, i)) by {
                    lemma_all_bits8(i as u8);
                }
            }
            0
        } else {
            let mut v: u8 = 1;
            let mut k: usize = 0;
            proof {
                lemma_bit_zero8();
                lemma_single8_bits(0);
            }
            while k < len - 1
                invariant
                    1 <= len <= 8,
                    k <= len - 1,
                    forall|i: nat| i < 8 ==> #[trigger] has_bit8(v, i) == (i < k + 1),
                decreases len - 1 - k,
            {
                proof {
                    lemma_double_plus_one8(v);
                    lemma_shl8_bits(v, 1);
                    lemma_ops8_bits(v << 1, 1);
                    lemma_bit_zero8();
                    lemma_single8_bits(0);
                }
                let ghost v0 = v;
                v = v << 1u8;
                v = v + 1;
                k += 1;
                proof {
                    assert forall|i: nat| i < 8 implies #[trigger] has_bit8(v, i) == (i < k + 1) by {
                        lemma_shl_bit8(v0, 1, i as u8);
                        assert(has_bit8(v0 << 1u8, i) == (i >= 1 && has_bit8(v0, (i - 1) as nat)));
                        assert(has_bit8(1, i) == (i == 0));
                        assert(has_bit8((v0 << 1u8) | 1, i) == (has_bit8(v0 << 1u8, i) || has_bit8(1, i)));
                    }
                }
            }
            v
        }
    }

    fn bor(&mut self, other: &Self) {
        proof {
            lemma_ops8_bits(*old(self), *other);
        }
        *self = *self | *other;
    }

    fn bpow2(p: usize) -> (r: Self) {
        proof {
            lemma_single8_bits(p as nat);
        }
        pow2_u8(p)
    }

    fn blshift(&mut self, len: usize) {
        proof {
            lemma_shl8_bits(*old(self), len as nat);
        }
        *self = *self << (len as u8);
    }

    fn bsplit(&self, cut: usize) -> (r: (Self, Self)) {
        let len = self.blen();
        let lo = Self::bone_low(cut);
        let hi = Self::bone_high(len - cut);
        proof {
            lemma_ops8_bits(*self, lo);
            lemma_ops8_bits(*self, hi);
            assert forall|i: nat| i < 8 implies #[trigger] has_bit8(*self & lo, i) == (i < cut
                && has_bit8(*self, i)) by {
                assert(lo.bit_at(i) == (i < cut));
            }
            assert forall|i: nat| i < 8 implies #[trigger] has_bit8(*self & hi, i) == (i >= cut
                && has_bit8(*self, i)) by {
                assert(hi.bit_at(i) == (i + (len - cut) >= 8));
            }
        }
        (*self & lo, *self & hi)
    }

    fn bueights(&self) -> (r: Vec<u8>) {
        self.to_u8s()
    }

    fn bxor(&mut self, other: &Self) {
        proof {
            lemma_ops8_bits(*old(self), *other);
        }
        *self = *self ^ *other;
    }

    fn bzero() -> (r: Self) {
        proof {
            assert forall|i: nat| i < 8 implies !(#[trigger] has_bit8(0, i)) by {
                lemma_all_bits8(i as u8);
            }
        }
        0
    }
}

impl BitstringDebug for u8 {
    fn bdebug(&self) -> (r: String)
        ensures
            r@ == debug_text_u8(*self),
    {
        debug_u8(*self)
    }
}

} // verus!
