//! Bit strings read from and written to little-endian bytes.

use vstd::prelude::*;
use crate::bits64::Bits64;
use crate::bits8::Bits8;
use crate::bitstring::{Bitstring, has_bit8, has_bit64, lemma_ops64_bits};
use crate::bitstring_ops::BitstringInto;
use crate::bu64::Bu64;
use crate::bu8::Bu8;
use crate::mask::{lemma_all_bits64, lemma_byte_shift_bit64};

verus! {

/// The `u64` whose bytes, least significant first, are the first eight of `xs`.
fn assemble_u64(xs: &[u8]) -> (r: u64)
    requires
        xs@.len() >= 8,
    ensures
        forall|i: nat| i < 64 ==> #[trigger] has_bit64(r, i) == has_bit8(xs@[(i / 8) as int], i % 8),
{
    let mut acc: u64 = 0;
    let mut k: u64 = 0;
    proof {
        assert forall|i: nat| i < 64 implies #[trigger] has_bit64(acc, i) == (i < 8 * k && has_bit8(
            xs@[(i / 8) as int],
            i % 8,
        )) by {
            lemma_all_bits64(i as u64);
        }
    }
    while k < 8
        invariant
            k <= 8,
            xs@.len() >= 8,
            forall|i: nat| i < 64 ==> #[trigger] has_bit64(acc, i) == (i < 8 * k && has_bit8(
                xs@[(i / 8) as int],
                i % 8,
            )),
        decreases 8 - k,
    {
        let part = (xs[k as usize] as u64) << (8 * k);
        proof {
            lemma_ops64_bits(acc, part);
            assert forall|i: nat| i < 64 implies #[trigger] has_bit64(part, i) == (8 * k <= i < 8 * k
                + 8 && has_bit8(xs@[(i / 8) as int], i % 8)) by {
                lemma_byte_shift_bit64(xs@[k as int], k, i as u64);
                if 8 * k <= i < 8 * k + 8 {
                    assert(i / 8 == k);
                    assert(i % 8 == i - 8 * k);
                }
            }
        }
        acc = acc | part;
        k += 1;
    }
    acc
}

impl Bu64 {
    /// The bytes, least significant first.
    pub fn to_bytes(&self) -> (r: Vec<u8>)
        ensures
            r@.len() == 8,
            forall|i: nat| i < 64 ==> #[trigger] has_bit64(self.0, i) == has_bit8(r@[(i / 8) as int], i % 8),
    {
        let r = self.0.to_u8s();
        proof {
            assert forall|i: nat| i < 64 implies #[trigger] has_bit64(self.0, i) == has_bit8(
                r@[(i / 8) as int],
                i % 8,
            ) by {
                assert(<u64 as Bitstring>::bit(&self.0, i) == has_bit8(r@[(i / 8) as int], i % 8));
            }
        }
        r
    }

    /// The value whose bytes, least significant first, are the first eight of `xs`.
    pub fn from_bytes(xs: &[u8]) -> (r: Bu64)
        requires
            xs@.len() >= 8,
        ensures
            forall|i: nat| i < 64 ==> #[trigger] has_bit64(r.0, i) == has_bit8(xs@[(i / 8) as int], i % 8),
    {
        Bu64(assemble_u64(xs))
    }
}

impl Bits64 {
    /// The bytes, least significant first.
    pub fn to_bytes(&self) -> (r: Vec<u8>)
        ensures
            r@.len() == 8,
            forall|i: nat| i < 64 ==> #[trigger] has_bit64(self.0, i) == has_bit8(r@[(i / 8) as int], i % 8),
    {
        let r = self.0.to_u8s();
        proof {
            assert forall|i: nat| i < 64 implies #[trigger] has_bit64(self.0, i) == has_bit8(
                r@[(i / 8) as int],
                i % 8,
            ) by {
                assert(<u64 as Bitstring>::bit(&self.0, i) == has_bit8(r@[(i / 8) as int], i % 8));
            }
        }
        r
    }

    /// The value whose bytes, least significant first, are the first eight of `xs`.
    pub fn from_bytes(xs: &[u8]) -> (r: Bits64)
        requires
            xs@.len() >= 8,
        ensures
            forall|i: nat| i < 64 ==> #[trigger] has_bit64(r.0, i) == has_bit8(xs@[(i / 8) as int], i % 8),
    {
        Bits64(assemble_u64(xs))
    }
}

impl Bu8 {
    /// The single byte.
    pub fn to_bytes(&self) -> (r: Vec<u8>)
        ensures
            r@ == seq![self.0],
    {
        let r = vec![self.0];
        assert(r@ =~= seq![self.0]);
        r
    }

    /// The value of the first byte of `xs`.
    pub fn from_bytes(xs: &[u8]) -> (r: Bu8)
        requires
            xs@.len() >= 1,
        ensures
            r.0 == xs@[0],
    {
        Bu8(xs[0])
    }
}

impl Bits8 {
    /// The single byte.
    pub fn to_bytes(&self) -> (r: Vec<u8>)
        ensures
            r@ == seq![self.0],
    {
        let r = vec![self.0];
        assert(r@ =~= seq![self.0]);
        r
    }

    /// The value of the first byte of `xs`.
    pub fn from_bytes(xs: &[u8]) -> (r: Bits8)
        requires
            xs@.len() >= 1,
        ensures
            r.0 == xs@[0],
    {
        Bits8(xs[0])
    }
}

} // verus!
