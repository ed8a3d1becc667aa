//! The genome bit-string interface implemented on `u64`.

use vstd::prelude::*;
use crate::bit::Bit;
use crate::bitstring::{
    has_bit64, get_bit64_of, lemma_low64_bits, lemma_high64_bits, lemma_single64_bits,
    lemma_ops64_bits, lemma_shl64_bits, lemma_not64_bits,
};
use crate::bitstring_ops::BitstringInto;
use crate::prim_u64::{debug_u64, debug_text_u64};
use crate::evolution::{Bitstring, BitstringDebug};
use crate::mask::{
    low64, high64, pow2_u64, low_ones_u64, high_ones_u64, lemma_all_bits64,
    lemma_double_plus_one64, lemma_bit_zero64, lemma_shl_bit64,
};

verus! {

impl Bitstring for u64 {
    open spec fn bwidth() -> nat {
        64
    }

    open spec fn bit_at(&self, i: nat) -> bool {
        has_bit64(*self, i)
    }

    proof fn lemma_bwidth() {
    }

    fn band(&mut self, other: &Self) {
        proof {
            lemma_ops64_bits(*old(self), *other);
        }
        *self = *self & *other;
    }

    fn bget(&self, ndx: usize) -> (r: Bit) {
        get_bit64_of(*self, ndx)
    }

    fn blen(&self) -> (r: usize) {
        64
    }

    fn bneg(&mut self) {
        proof {
            lemma_not64_bits(*old(self));
        }
        *self = !*self;
    }

    fn bone() -> (r: Self) {
        proof {
            lemma_bit_zero64();
            lemma_single64_bits(0);
        }
        1
    }

    fn bone_low(len: usize) -> (r: Self) {
        if len == 0 {
            proof {
                assert forall|i: nat| i < 64 implies !(#[trigger] has_bit64(0, i)) by {
                    lemma_all_bits64(i as u64);
                }
            }
            0
        } else {
            let mut v: u64 = 1;
            let mut k: usize = 0;
            proof {
                lemma_bit_zero64();
                lemma_single64_bits(0);
            }
            while k < len - 1
                invariant
                    1 <= len <= 64,
                    k <= len - 1,
                    forall|i: nat| i < 64 ==> #[trigger] has_bit64(v, i) == (i < k + 1),
                decreases len - 1 - k,
            {
                proof {
                    lemma_double_plus_one64(v);
                    lemma_shl64_bits(v, 1);
                    lemma_ops64_bits(v << 1, 1);
                    lemma_bit_zero64();
                    lemma_single64_bits(0);
                }
                let ghost v0 = v;
                v = v << 1u64;
                v = v + 1;
                k += 1;
                proof {
                    assert forall|i: nat| i < 64 implies #[trigger] has_bit64(v, i) == (i < k + 1) by {
                        lemma_shl_bit64(v0, 1, i as u64);
                        assert(has_bit64(v0 << 1u64, i) == (i >= 1 && has_bit64(v0, (i - 1) as nat)));
                        assert(has_bit64(1, i) == (i == 0));
                        assert(has_bit64((v0 << 1u64) | 1, i) == (has_bit64(v0 << 1u64, i) || has_bit64(1, i)));
                    }
                }
            }
            v
        }
    }

    fn bor(&mut self, other: &Self) {
        proof {
            lemma_ops64_bits(*old(self), *other);
        }
        *self = *self | *other;
    }

    fn bpow2(p: usize) -> (r: Self) {
        proof {
            lemma_single64_bits(p as nat);
        }
        pow2_u64(p)
    }

    fn blshift(&mut self, len: usize) {
        proof {
            lemma_shl64_bits(*old(self), len as nat);
        }
        *self = *self << (len as u64);
    }

    fn bsplit(&self, cut: usize) -> (r: (Self, Self)) {
        let len = self.blen();
        let lo = Self::bone_low(cut);
        let hi = Self::bone_high(len - cut);
        proof {
            lemma_ops64_bits(*self, lo);
            lemma_ops64_bits(*self, hi);
            assert forall|i: nat| i < 64 implies #[trigger] has_bit64(*self & lo, i) == (i < cut
                && has_bit64(*self, i)) by {
                assert(lo.bit_at(i) == (i < cut));
            }
            assert forall|i: nat| i < 64 implies #[trigger] has_bit64(*self & hi, i) == (i >= cut
                && has_bit64(*self, i)) by {
                assert(hi.bit_at(i) == (i + (len - cut) >= 64));
            }
        }
        (*self & lo, *self & hi)
    }

    fn bueights(&self) -> (r: Vec<u8>) {
        self.to_u8s()
    }

    fn bxor(&mut self, other: &Self) {
        proof {
            lemma_ops64_bits(*old(self), *other);
        }
        *self = *self ^ *other;
    }

    fn bzero() -> (r: Self) {
        proof {
            assert forall|i: nat| i < 64 implies !(#[trigger] has_bit64(0, i)) by {
                lemma_all_bits64(i as u64);
            }
        }
        0
    }
}

impl BitstringDebug for u64 {
    fn bdebug(&self) -> (r: String)
        ensures
            r@ == debug_text_u64(*self),
    {
        debug_u64(*self)
    }
}

} // verus!
