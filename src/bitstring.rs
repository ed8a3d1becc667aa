//! Fixed-width strings of bits: the `Bitstring` trait, and the bit-level
//! facts its implementations on `u8` and `u64` are proved with.

use vstd::prelude::*;
use crate::bit::Bit;
use crate::mask::{
    bit8, bit64, low8, low64, high8, high64, get_u8, set_u8, rst_u8, get_u64, set_u64, rst_u64,
    lemma_single_bit8, lemma_low_bit8, lemma_high_bit8, lemma_all_bits8, lemma_and_bit8,
    lemma_or_bit8, lemma_xor_bit8, lemma_shl_bit8, lemma_single_bit64, lemma_low_bit64,
    lemma_high_bit64, lemma_all_bits64, lemma_and_bit64, lemma_or_bit64, lemma_xor_bit64,
    lemma_shl_bit64, lemma_not_bit8, lemma_not_bit64, lemma_shr_bit8, lemma_shr_bit64,
};

verus! {

/// A string of `width()` bits, numbered from the least significant.
pub trait Bitstring: Sized {
    /// The number of bits.
    spec fn width() -> nat;

    /// Whether bit `ndx` is set.
    spec fn bit(&self, ndx: nat) -> bool;

    /// Returns the number of bits.
    fn len() -> (r: usize)
        ensures
            r == Self::width(),
    ;

    /// Returns bit `ndx`.
    fn get(&self, ndx: usize) -> (r: Bit)
        requires
            ndx < Self::width(),
        ensures
            r == Bit::of(self.bit(ndx as nat)),
    ;

    /// Sets bit `ndx` and keeps the others.
    fn set(&mut self, ndx: usize)
        requires
            ndx < Self::width(),
        ensures
            forall|i: nat| i < Self::width() ==> final(self).bit(i) == (i == ndx || old(self).bit(i)),
    ;

    /// Clears bit `ndx` and keeps the others.
    fn rst(&mut self, ndx: usize)
        requires
            ndx < Self::width(),
        ensures
            forall|i: nat| i < Self::width() ==> final(self).bit(i) == (i != ndx && old(self).bit(i)),
    ;
}

/// Whether bit `ndx` of `x` is set.
pub open spec fn has_bit8(x: u8, ndx: nat) -> bool {
    x & bit8(ndx) != 0
}

/// Whether bit `ndx` of `x` is set.
pub open spec fn has_bit64(x: u64, ndx: nat) -> bool {
    x & bit64(ndx) != 0
}

pub proof fn lemma_set_bit8(x: u8, n: u8, i: u8)
    requires
        n < 8,
        i < 8,
    ensures
        ((x & !(1u8 << n)) | (1u8 << n)) & (1u8 << i) != 0 <==> (i == n || x & (1u8 << i) != 0),
{
    assert(((x & !(1u8 << n)) | (1u8 << n)) & (1u8 << i) != 0 <==> (i == n || x & (1u8 << i)
        != 0)) by (bit_vector)
        requires
            n < 8,
            i < 8,
    ;
}

pub proof fn lemma_rst_bit8(x: u8, n: u8, i: u8)
    requires
        n < 8,
        i < 8,
    ensures
        (x & !(1u8 << n)) & (1u8 << i) != 0 <==> (i != n && x & (1u8 << i) != 0),
{
    assert((x & !(1u8 << n)) & (1u8 << i) != 0 <==> (i != n && x & (1u8 << i) != 0))
        by (bit_vector)
        requires
            n < 8,
            i < 8,
    ;
}

pub proof fn lemma_set_bit64(x: u64, n: u64, i: u64)
    requires
        n < 64,
        i < 64,
    ensures
        ((x & !(1u64 << n)) | (1u64 << n)) & (1u64 << i) != 0 <==> (i == n || x & (1u64 << i)
            != 0),
{
    assert(((x & !(1u64 << n)) | (1u64 << n)) & (1u64 << i) != 0 <==> (i == n || x & (1u64
        << i) != 0)) by (bit_vector)
        requires
            n < 64,
            i < 64,
    ;
}

pub proof fn lemma_rst_bit64(x: u64, n: u64, i: u64)
    requires
        n < 64,
        i < 64,
    ensures
        (x & !(1u64 << n)) & (1u64 << i) != 0 <==> (i != n && x & (1u64 << i) != 0),
{
    assert((x & !(1u64 << n)) & (1u64 << i) != 0 <==> (i != n && x & (1u64 << i) != 0))
        by (bit_vector)
        requires
            n < 64,
            i < 64,
    ;
}

/// `x` with bit `ndx` set, as the bit-level statement.
pub fn set_bit8_of(x: u8, ndx: usize) -> (r: u8)
    requires
        ndx < 8,
    ensures
        forall|i: nat| i < 8 ==> has_bit8(r, i) == (i == ndx || has_bit8(x, i)),
{
    let r = set_u8(x, ndx);
    proof {
        assert forall|i: nat| i < 8 implies has_bit8(r, i) == (i == ndx || has_bit8(x, i)) by {
            lemma_set_bit8(x, ndx as u8, i as u8);
        }
    }
    r
}

/// `x` with bit `ndx` cleared, as the bit-level statement.
pub fn rst_bit8_of(x: u8, ndx: usize) -> (r: u8)
    requires
        ndx < 8,
    ensures
        forall|i: nat| i < 8 ==> has_bit8(r, i) == (i != ndx && has_bit8(x, i)),
{
    let r = rst_u8(x, ndx);
    proof {
        assert forall|i: nat| i < 8 implies has_bit8(r, i) == (i != ndx && has_bit8(x, i)) by {
            lemma_rst_bit8(x, ndx as u8, i as u8);
        }
    }
    r
}

/// Bit `ndx` of `x` as a `Bit`.
pub fn get_bit8_of(x: u8, ndx: usize) -> (r: Bit)
    requires
        ndx < 8,
    ensures
        r == Bit::of(has_bit8(x, ndx as nat)),
{
    if get_u8(x, ndx) == 0 {
        Bit::Zero
    } else {
        Bit::One
    }
}

/// `x` with bit `ndx` set, as the bit-level statement.
pub fn set_bit64_of(x: u64, ndx: usize) -> (r: u64)
    requires
        ndx < 64,
    ensures
        forall|i: nat| i < 64 ==> has_bit64(r, i) == (i == ndx || has_bit64(x, i)),
{
    let r = set_u64(x, ndx);
    proof {
        assert forall|i: nat| i < 64 implies has_bit64(r, i) == (i == ndx || has_bit64(x, i)) by {
            lemma_set_bit64(x, ndx as u64, i as u64);
        }
    }
    r
}

/// `x` with bit `ndx` cleared, as the bit-level statement.
pub fn rst_bit64_of(x: u64, ndx: usize) -> (r: u64)
    requires
        ndx < 64,
    ensures
        forall|i: nat| i < 64 ==> has_bit64(r, i) == (i != ndx && has_bit64(x, i)),
{
    let r = rst_u64(x, ndx);
    proof {
        assert forall|i: nat| i < 64 implies has_bit64(r, i) == (i != ndx && has_bit64(x, i)) by {
            lemma_rst_bit64(x, ndx as u64, i as u64);
        }
    }
    r
}

/// Bit `ndx` of `x` as a `Bit`.
pub fn get_bit64_of(x: u64, ndx: usize) -> (r: Bit)
    requires
        ndx < 64,
    ensures
        r == Bit::of(has_bit64(x, ndx as nat)),
{
    if get_u64(x, ndx) == 0 {
        Bit::Zero
    } else {
        Bit::One
    }
}

/// The bits of the low mask of length `len`.
pub proof fn lemma_low8_bits(len: nat)
    requires
        len <= 8,
    ensures
        forall|i: nat| i < 8 ==> #[trigger] has_bit8(low8(len), i) == (i < len),
{
    assert forall|i: nat| i < 8 implies #[trigger] has_bit8(low8(len), i) == (i < len) by {
        if len == 8 {
            lemma_all_bits8(i as u8);
        } else {
            lemma_low_bit8(len as u8, i as u8);
        }
    }
}

/// The bits of the high mask of length `len`.
pub proof fn lemma_high8_bits(len: nat)
    requires
        len <= 8,
    ensures
        forall|i: nat| i < 8 ==> #[trigger] has_bit8(high8(len), i) == (i + len >= 8),
{
    assert forall|i: nat| i < 8 implies #[trigger] has_bit8(high8(len), i) == (i + len >= 8) by {
        if len == 8 || len == 0 {
            lemma_all_bits8(i as u8);
        } else {
            lemma_high_bit8(len as u8, i as u8);
        }
    }
}

/// The bits of a single-bit mask.
pub proof fn lemma_single8_bits(p: nat)
    requires
        p < 8,
    ensures
        forall|i: nat| i < 8 ==> #[trigger] has_bit8(bit8(p), i) == (i == p),
{
    assert forall|i: nat| i < 8 implies #[trigger] has_bit8(bit8(p), i) == (i == p) by {
        lemma_single_bit8(p as u8, i as u8);
    }
}

/// The bits of a conjunction, a disjunction and an exclusive disjunction.
pub proof fn lemma_ops8_bits(x: u8, y: u8)
    ensures
        forall|i: nat| i < 8 ==> #[trigger] has_bit8(x & y, i) == (has_bit8(x, i) && has_bit8(y, i)),
        forall|i: nat| i < 8 ==> #[trigger] has_bit8(x | y, i) == (has_bit8(x, i) || has_bit8(y, i)),
        forall|i: nat| i < 8 ==> #[trigger] has_bit8(x ^ y, i) == (has_bit8(x, i) != has_bit8(y, i)),
{
    assert forall|i: nat| i < 8 implies #[trigger] has_bit8(x & y, i) == (has_bit8(x, i) && has_bit8(y, i)) by {
        lemma_and_bit8(x, y, i as u8);
    }
    assert forall|i: nat| i < 8 implies #[trigger] has_bit8(x | y, i) == (has_bit8(x, i) || has_bit8(y, i)) by {
        lemma_or_bit8(x, y, i as u8);
    }
    assert forall|i: nat| i < 8 implies #[trigger] has_bit8(x ^ y, i) == (has_bit8(x, i) != has_bit8(y, i)) by {
        lemma_xor_bit8(x, y, i as u8);
    }
}

/// The bits of a left shift.
pub proof fn lemma_shl8_bits(x: u8, s: nat)
    requires
        s < 8,
    ensures
        forall|i: nat| i < 8 ==> #[trigger] has_bit8(x << (s as u8), i) == (i >= s && has_bit8(x, (i - s) as nat)),
{
    assert forall|i: nat| i < 8 implies #[trigger] has_bit8(x << (s as u8), i) == (i >= s && has_bit8(x, (i - s) as nat)) by {
        lemma_shl_bit8(x, s as u8, i as u8);
    }
}

/// The bits of the low mask of length `len`.
pub proof fn lemma_low64_bits(len: nat)
    requires
        len <= 64,
    ensures
        forall|i: nat| i < 64 ==> #[trigger] has_bit64(low64(len), i) == (i < len),
{
    assert forall|i: nat| i < 64 implies #[trigger] has_bit64(low64(len), i) == (i < len) by {
        if len == 64 {
            lemma_all_bits64(i as u64);
        } else {
            lemma_low_bit64(len as u64, i as u64);
        }
    }
}

/// The bits of the high mask of length `len`.
pub proof fn lemma_high64_bits(len: nat)
    requires
        len <= 64,
    ensures
        forall|i: nat| i < 64 ==> #[trigger] has_bit64(high64(len), i) == (i + len >= 64),
{
    assert forall|i: nat| i < 64 implies #[trigger] has_bit64(high64(len), i) == (i + len >= 64) by {
        if len == 64 || len == 0 {
            lemma_all_bits64(i as u64);
        } else {
            lemma_high_bit64(len as u64, i as u64);
        }
    }
}

/// The bits of a single-bit mask.
pub proof fn lemma_single64_bits(p: nat)
    requires
        p < 64,
    ensures
        forall|i: nat| i < 64 ==> #[trigger] has_bit64(bit64(p), i) == (i == p),
{
    assert forall|i: nat| i < 64 implies #[trigger] has_bit64(bit64(p), i) == (i == p) by {
        lemma_single_bit64(p as u64, i as u64);
    }
}

/// The bits of a conjunction, a disjunction and an exclusive disjunction.
pub proof fn lemma_ops64_bits(x: u64, y: u64)
    ensures
        forall|i: nat| i < 64 ==> #[trigger] has_bit64(x & y, i) == (has_bit64(x, i) && has_bit64(y, i)),
        forall|i: nat| i < 64 ==> #[trigger] has_bit64(x | y, i) == (has_bit64(x, i) || has_bit64(y, i)),
        forall|i: nat| i < 64 ==> #[trigger] has_bit64(x ^ y, i) == (has_bit64(x, i) != has_bit64(y, i)),
{
    assert forall|i: nat| i < 64 implies #[trigger] has_bit64(x & y, i) == (has_bit64(x, i) && has_bit64(y, i)) by {
        lemma_and_bit64(x, y, i as u64);
    }
    assert forall|i: nat| i < 64 implies #[trigger] has_bit64(x | y, i) == (has_bit64(x, i) || has_bit64(y, i)) by {
        lemma_or_bit64(x, y, i as u64);
    }
    assert forall|i: nat| i < 64 implies #[trigger] has_bit64(x ^ y, i) == (has_bit64(x, i) != has_bit64(y, i)) by {
        lemma_xor_bit64(x, y, i as u64);
    }
}

/// The bits of a left shift.
pub proof fn lemma_shl64_bits(x: u64, s: nat)
    requires
        s < 64,
    ensures
        forall|i: nat| i < 64 ==> #[trigger] has_bit64(x << (s as u64), i) == (i >= s && has_bit64(x, (i - s) as nat)),
{
    assert forall|i: nat| i < 64 implies #[trigger] has_bit64(x << (s as u64), i) == (i >= s && has_bit64(x, (i - s) as nat)) by {
        lemma_shl_bit64(x, s as u64, i as u64);
    }
}


/// The bits of a complement.
pub proof fn lemma_not8_bits(x: u8)
    ensures
        forall|i: nat| i < 8 ==> #[trigger] has_bit8(!x, i) == !has_bit8(x, i),
{
    assert forall|i: nat| i < 8 implies #[trigger] has_bit8(!x, i) == !has_bit8(x, i) by {
        lemma_not_bit8(x, i as u8);
    }
}

/// The bits of a right shift.
pub proof fn lemma_shr8_bits(x: u8, s: nat)
    requires
        s < 8,
    ensures
        forall|i: nat| i < 8 ==> #[trigger] has_bit8(x >> (s as u8), i) == (i + s < 8 && has_bit8(x, i + s)),
{
    assert forall|i: nat| i < 8 implies #[trigger] has_bit8(x >> (s as u8), i) == (i + s < 8 && has_bit8(x, i + s)) by {
        lemma_shr_bit8(x, s as u8, i as u8);
    }
}

/// The bits of a complement.
pub proof fn lemma_not64_bits(x: u64)
    ensures
        forall|i: nat| i < 64 ==> #[trigger] has_bit64(!x, i) == !has_bit64(x, i),
{
    assert forall|i: nat| i < 64 implies #[trigger] has_bit64(!x, i) == !has_bit64(x, i) by {
        lemma_not_bit64(x, i as u64);
    }
}

/// The bits of a right shift.
pub proof fn lemma_shr64_bits(x: u64, s: nat)
    requires
        s < 64,
    ensures
        forall|i: nat| i < 64 ==> #[trigger] has_bit64(x >> (s as u64), i) == (i + s < 64 && has_bit64(x, i + s)),
{
    assert forall|i: nat| i < 64 implies #[trigger] has_bit64(x >> (s as u64), i) == (i + s < 64 && has_bit64(x, i + s)) by {
        lemma_shr_bit64(x, s as u64, i as u64);
    }
}

} // verus!
