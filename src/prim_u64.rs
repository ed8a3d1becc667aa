//! The bit-string traits implemented directly on `u64`.

use vstd::prelude::*;
use vstd::string::StringExecFns;
use crate::render::{decimal, pad_left, decimal_u64, binary_u8, append_padded};
use crate::bit::Bit;
use crate::bitstring::{
    Bitstring, has_bit8, has_bit64, set_bit64_of, rst_bit64_of, get_bit64_of, lemma_low64_bits,
    lemma_high64_bits, lemma_single64_bits, lemma_ops64_bits, lemma_shl64_bits,
    lemma_not64_bits, lemma_shr64_bits,
};
use crate::bitstring_ops::{
    BitstringConstructor, BitstringOps, BitstringShift, BitstringRange, BitstringCombinators,
    BitstringInto, BitstringDebug,
};
use crate::mask::{bit64, low64, high64, pow2_u64, low_ones_u64, high_ones_u64, lemma_all_bits64};

verus! {

impl Bitstring for u64 {
    open spec fn width() -> nat {
        64
    }

    open spec fn bit(&self, ndx: nat) -> bool {
        has_bit64(*self, ndx)
    }

    fn len() -> (r: usize) {
        64
    }

    fn get(&self, ndx: usize) -> (r: Bit) {
        get_bit64_of(*self, ndx)
    }

    fn set(&mut self, ndx: usize) {
        *self = set_bit64_of(*self, ndx);
    }

    fn rst(&mut self, ndx: usize) {
        *self = rst_bit64_of(*self, ndx);
    }
}

impl BitstringConstructor for u64 {
    fn zero() -> (r: Self) {
        proof {
            assert forall|i: nat| i < 64 implies !(#[trigger] has_bit64(0, i)) by {
                lemma_all_bits64(i as u64);
            }
        }
        0
    }

    fn one() -> (r: Self) {
        proof {
            assert(bit64(0) == 1) by (bit_vector);
            lemma_single64_bits(0);
        }
        1
    }

    fn pow2(power: usize) -> (r: Self) {
        proof {
            lemma_single64_bits(power as nat);
        }
        pow2_u64(power)
    }

    fn low_ones(len: usize) -> (r: Self) {
        proof {
            lemma_low64_bits(len as nat);
        }
        low_ones_u64(len)
    }

    fn high_ones(len: usize) -> (r: Self) {
        proof {
            lemma_high64_bits(len as nat);
        }
        high_ones_u64(len)
    }
}

impl BitstringOps for u64 {
    fn and(&mut self, other: &Self) {
        proof {
            lemma_ops64_bits(*old(self), *other);
        }
        *self = *self & *other;
    }

    fn or(&mut self, other: &Self) {
        proof {
            lemma_ops64_bits(*old(self), *other);
        }
        *self = *self | *other;
    }

    fn xor(&mut self, other: &Self) {
        proof {
            lemma_ops64_bits(*old(self), *other);
        }
        *self = *self ^ *other;
    }

    fn neg(&mut self) {
        proof {
            lemma_not64_bits(*old(self));
        }
        *self = !*self;
    }
}

impl BitstringShift for u64 {
    fn shift_left(&mut self, with: usize) {
        proof {
            lemma_shl64_bits(*old(self), with as nat);
        }
        *self = *self << (with as u64);
    }

    fn shift_right(&mut self, with: usize) {
        proof {
            lemma_shr64_bits(*old(self), with as nat);
        }
        *self = *self >> (with as u64);
    }
}

impl BitstringRange for u64 {
    fn rst_low(&mut self, len: usize) {
        let m = high_ones_u64(64 - len);
        proof {
            lemma_ops64_bits(*old(self), m);
            lemma_high64_bits((64 - len) as nat);
        }
        *self = *self & m;
    }

    fn rst_high(&mut self, len: usize) {
        let m = low_ones_u64(64 - len);
        proof {
            lemma_ops64_bits(*old(self), m);
            lemma_low64_bits((64 - len) as nat);
        }
        *self = *self & m;
    }

    fn set_low(&mut self, len: usize) {
        let m = low_ones_u64(len);
        proof {
            lemma_ops64_bits(*old(self), m);
            lemma_low64_bits(len as nat);
        }
        *self = *self | m;
    }

    fn set_high(&mut self, len: usize) {
        let m = high_ones_u64(len);
        proof {
            lemma_ops64_bits(*old(self), m);
            lemma_high64_bits(len as nat);
        }
        *self = *self | m;
    }
}

impl BitstringCombinators for u64 {
    fn combine(&mut self, other: &Self) {
        self.or(other);
    }

    fn flip(&mut self, pos: usize) {
        let m = pow2_u64(pos);
        proof {
            lemma_ops64_bits(*old(self), m);
            lemma_single64_bits(pos as nat);
        }
        *self = *self ^ m;
    }

    fn split(&self, pos: usize) -> (r: (Self, Self)) {
        let l = *self & low_ones_u64(pos);
        let h = *self & high_ones_u64(64 - pos);
        proof {
            lemma_ops64_bits(*self, low64(pos as nat));
            lemma_ops64_bits(*self, high64((64 - pos) as nat));
            lemma_low64_bits(pos as nat);
            lemma_high64_bits((64 - pos) as nat);
        }
        (l, h)
    }
}

/// Byte `k` of `x`, counting from the least significant.
fn byte_of_u64(x: u64, k: u64) -> (r: u8)
    requires
        k < 8,
    ensures
        forall|j: nat| j < 8 ==> #[trigger] has_bit8(r, j) == has_bit64(x, (8 * k + j) as nat),
{
    let r = ((x >> (8 * k)) & 0xff) as u8;
    proof {
        assert forall|j: nat| j < 8 implies #[trigger] has_bit8(r, j) == has_bit64(x, (8 * k + j) as nat) by {
            lemma_byte_bit64(x, k, j as u64);
        }
    }
    r
}

pub proof fn lemma_byte_bit64(x: u64, k: u64, j: u64)
    by (bit_vector)
    requires
        k < 8,
        j < 8,
    ensures
        (((((x >> (8 * k)) & 0xff) as u8) & (1u8 << (j as u8))) != 0) == (x & (1u64 << (8 * k + j)) != 0),
{
}

impl BitstringInto for u64 {
    fn to_u8s(&self) -> (r: Vec<u8>) {
        let mut bytes: Vec<u8> = Vec::new();
        let mut k: u64 = 0;
        while k < 8
            invariant
                k <= 8,
                bytes@.len() == k,
                forall|m: int, j: nat|
                    0 <= m < k && j < 8 ==> #[trigger] has_bit8(bytes@[m], j)
                        == has_bit64(*self, (8 * m + j) as nat),
            decreases 8 - k,
        {
            bytes.push(byte_of_u64(*self, k));
            k += 1;
        }
        proof {
            assert forall|i: nat| i < 64 implies (#[trigger] has_bit64(*self, i)) == has_bit8(bytes@[(i / 8) as int], i % 8) by {
                assert(8 * (i / 8) + i % 8 == i);
            }
        }
        bytes
    }

    fn to_bits(&self) -> (r: Vec<Bit>) {
        let mut bits: Vec<Bit> = Vec::new();
        let mut i: usize = 0;
        while i < 64
            invariant
                i <= 64,
                bits@.len() == i,
                forall|j: int| 0 <= j < i ==> #[trigger] bits@[j] == Bit::of(has_bit64(*self, j as nat)),
            decreases 64 - i,
        {
            bits.push(get_bit64_of(*self, i));
            i += 1;
        }
        bits
    }
}

/// The eight binary digits of byte `k` of `x`, most significant first.
pub open spec fn byte_digits(x: u64, k: nat) -> Seq<char> {
    Seq::new(8, |i: int| if has_bit64(x, (8 * k + 7 - i) as nat) { '1' } else { '0' })
}

/// Bytes `n - 1` down to 0 of `x`, each as a bar then its binary digits.
pub open spec fn byte_groups(x: u64, n: nat) -> Seq<char>
    decreases n,
{
    if n == 0 {
        Seq::empty()
    } else {
        seq!['|'] + byte_digits(x, (n - 1) as nat) + byte_groups(x, (n - 1) as nat)
    }
}

/// The rendering of `x`: `u64:`, its decimal value padded to twenty places,
/// then its bytes from the most significant, in binary, between bars.
pub open spec fn debug_text_u64(x: u64) -> Seq<char> {
    seq!['u', '6', '4', ':'] + pad_left(decimal(x as nat), 20) + byte_groups(x, 8) + seq!['|']
}

/// Renders `x` as `debug_text_u64` describes.
pub fn debug_u64(x: u64) -> (r: String)
    ensures
        r@ == debug_text_u64(x),
{
    let bytes = x.to_u8s();
    proof {
        assert forall|i: nat| i < 64 implies (#[trigger] has_bit64(x, i)) == has_bit8(bytes@[(i / 8) as int], i % 8) by {
            assert(<u64 as Bitstring>::bit(&x, i) == has_bit8(bytes@[(i / 8) as int], i % 8));
        }
    }
    let mut s = String::new();
    s.append("u64:");
    append_padded(&mut s, &decimal_u64(x), 20);
    proof {
        reveal_strlit("u64:");
        reveal_strlit("|");
    }
    let ghost prefix = s@;
    let mut k: usize = 8;
    while k > 0
        invariant
            k <= 8,
            bytes@.len() == 8,
            forall|i: nat| i < 64 ==> (#[trigger] has_bit64(x, i)) == has_bit8(bytes@[(i / 8) as int], i % 8),
            s@ + byte_groups(x, k as nat) == prefix + byte_groups(x, 8),
        decreases k,
    {
        k -= 1;
        let ghost s_start = s@;
        s.append("|");
        let digits = binary_u8(bytes[k]);
        proof {
            assert forall|i: int| 0 <= i < 8 implies digits@[i] == byte_digits(x, k as nat)[i] by {
                let j = (8 * k + 7 - i) as nat;
                assert(j / 8 == k && j % 8 == 7 - i);
                assert(has_bit64(x, j) == has_bit8(bytes@[k as int], (7 - i) as nat));
            }
            assert(digits@ =~= byte_digits(x, k as nat));
        }
        let ghost before = s@;
        s.append(digits.as_str());
        proof {
            reveal_strlit("|");
            assert(before =~= s_start + seq!['|']);
            assert(s@ =~= s_start + seq!['|'] + byte_digits(x, k as nat));
            assert(byte_groups(x, (k + 1) as nat) == seq!['|'] + byte_digits(x, k as nat) + byte_groups(x, k as nat));
            assert(s@ + byte_groups(x, k as nat) =~= s_start + byte_groups(x, (k + 1) as nat));
        }
    }
    s.append("|");
    proof {
        assert(s@ =~= debug_text_u64(x));
    }
    s
}

impl BitstringDebug for u64 {
    fn bdebug(&self) -> (r: String)
        ensures
            r@ == debug_text_u64(*self),
    {
        debug_u64(*self)
    }
}

} // verus!
