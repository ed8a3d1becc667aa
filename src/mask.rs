//! Single-bit and range masks over `u8` and `u64`, stated bit by bit.

use vstd::prelude::*;

verus! {

/// The `u8` with only bit `p` set.
pub open spec fn bit8(p: nat) -> u8 {
    1u8 << (p as u8)
}

/// The `u8` whose bits below `len` are set and the rest clear.
pub open spec fn low8(len: nat) -> u8 {
    if len >= 8 {
        0xffu8
    } else {
        !(0xffu8 << (len as u8))
    }
}

/// The `u8` whose top `len` bits are set and the rest clear.
pub open spec fn high8(len: nat) -> u8 {
    if len == 0 {
        0u8
    } else if len >= 8 {
        0xffu8
    } else {
        0xffu8 << ((8 - len) as u8)
    }
}

/// Bit `p` as a `u8` mask.
pub fn pow2_u8(p: usize) -> (r: u8)
    requires
        p < 8,
    ensures
        r == bit8(p as nat),
{
    1u8 << (p as u8)
}

/// `x` with bit `ndx` cleared.
pub fn rst_u8(x: u8, ndx: usize) -> (r: u8)
    requires
        ndx < 8,
    ensures
        r == x & !bit8(ndx as nat),
{
    x & !pow2_u8(ndx)
}

/// `x` with bit `ndx` set.
pub fn set_u8(x: u8, ndx: usize) -> (r: u8)
    requires
        ndx < 8,
    ensures
        r == (x & !bit8(ndx as nat)) | bit8(ndx as nat),
{
    rst_u8(x, ndx) | pow2_u8(ndx)
}

/// Bit `ndx` of `x`, kept in place.
pub fn get_u8(x: u8, ndx: usize) -> (r: u8)
    requires
        ndx < 8,
    ensures
        r == x & bit8(ndx as nat),
{
    x & pow2_u8(ndx)
}

/// The `u8` with its `len` low bits set.
pub fn low_ones_u8(len: usize) -> (r: u8)
    requires
        len <= 8,
    ensures
        r == low8(len as nat),
{
    if len == 8 {
        0xff
    } else {
        !(0xffu8 << (len as u8))
    }
}

/// The `u8` with its `len` high bits set.
pub fn high_ones_u8(len: usize) -> (r: u8)
    requires
        len <= 8,
    ensures
        r == high8(len as nat),
{
    if len == 0 {
        0
    } else if len == 8 {
        0xff
    } else {
        0xffu8 << ((8 - len) as u8)
    }
}

/// The `u64` with only bit `p` set.
pub open spec fn bit64(p: nat) -> u64 {
    1u64 << (p as u64)
}

/// The `u64` whose bits below `len` are set and the rest clear.
pub open spec fn low64(len: nat) -> u64 {
    if len >= 64 {
        0xffff_ffff_ffff_ffffu64
    } else {
        !(0xffff_ffff_ffff_ffffu64 << (len as u64))
    }
}

/// The `u64` whose top `len` bits are set and the rest clear.
pub open spec fn high64(len: nat) -> u64 {
    if len == 0 {
        0u64
    } else if len >= 64 {
        0xffff_ffff_ffff_ffffu64
    } else {
        0xffff_ffff_ffff_ffffu64 << ((64 - len) as u64)
    }
}

/// Bit `p` as a `u64` mask.
pub fn pow2_u64(p: usize) -> (r: u64)
    requires
        p < 64,
    ensures
        r == bit64(p as nat),
{
    1u64 << (p as u64)
}

/// `x` with bit `ndx` cleared.
pub fn rst_u64(x: u64, ndx: usize) -> (r: u64)
    requires
        ndx < 64,
    ensures
        r == x & !bit64(ndx as nat),
{
    x & !pow2_u64(ndx)
}

/// `x` with bit `ndx` set.
pub fn set_u64(x: u64, ndx: usize) -> (r: u64)
    requires
        ndx < 64,
    ensures
        r == (x & !bit64(ndx as nat)) | bit64(ndx as nat),
{
    rst_u64(x, ndx) | pow2_u64(ndx)
}

/// Bit `ndx` of `x`, kept in place.
pub fn get_u64(x: u64, ndx: usize) -> (r: u64)
    requires
        ndx < 64,
    ensures
        r == x & bit64(ndx as nat),
{
    x & pow2_u64(ndx)
}

/// The `u64` with its `len` low bits set.
pub fn low_ones_u64(len: usize) -> (r: u64)
    requires
        len <= 64,
    ensures
        r == low64(len as nat),
{
    if len == 64 {
        0xffff_ffff_ffff_ffff
    } else {
        !(0xffff_ffff_ffff_ffffu64 << (len as u64))
    }
}

/// The `u64` with its `len` high bits set.
pub fn high_ones_u64(len: usize) -> (r: u64)
    requires
        len <= 64,
    ensures
        r == high64(len as nat),
{
    if len == 0 {
        0
    } else if len == 64 {
        0xffff_ffff_ffff_ffff
    } else {
        0xffff_ffff_ffff_ffffu64 << ((64 - len) as u64)
    }
}

/// Facts relating masks and single bits, proved on bit vectors.

pub proof fn lemma_single_bit8(p: u8, i: u8)
    by (bit_vector)
    requires
        p < 8,
        i < 8,
    ensures
        ((1u8 << p) & (1u8 << i) != 0) == (p == i),
{
}

pub proof fn lemma_low_bit8(len: u8, i: u8)
    by (bit_vector)
    requires
        len < 8,
        i < 8,
    ensures
        (!(0xffu8 << len) & (1u8 << i) != 0) == (i < len),
{
}

pub proof fn lemma_high_bit8(len: u8, i: u8)
    by (bit_vector)
    requires
        0 < len < 8,
        i < 8,
    ensures
        ((0xffu8 << ((8 - len) as u8)) & (1u8 << i) != 0) == (i >= 8 - len),
{
}

pub proof fn lemma_all_bits8(i: u8)
    by (bit_vector)
    requires
        i < 8,
    ensures
        0xffu8 & (1u8 << i) != 0,
        0u8 & (1u8 << i) == 0,
{
}

pub proof fn lemma_and_bit8(x: u8, y: u8, i: u8)
    by (bit_vector)
    requires
        i < 8,
    ensures
        ((x & y) & (1u8 << i) != 0) == (x & (1u8 << i) != 0 && y & (1u8 << i) != 0),
{
}

pub proof fn lemma_or_bit8(x: u8, y: u8, i: u8)
    by (bit_vector)
    requires
        i < 8,
    ensures
        ((x | y) & (1u8 << i) != 0) == (x & (1u8 << i) != 0 || y & (1u8 << i) != 0),
{
}

pub proof fn lemma_xor_bit8(x: u8, y: u8, i: u8)
    by (bit_vector)
    requires
        i < 8,
    ensures
        ((x ^ y) & (1u8 << i) != 0) == ((x & (1u8 << i) != 0) != (y & (1u8 << i) != 0)),
{
}

pub proof fn lemma_shl_bit8(x: u8, s: u8, i: u8)
    by (bit_vector)
    requires
        s < 8,
        i < 8,
    ensures
        ((x << s) & (1u8 << i) != 0) == (i >= s && x & (1u8 << ((i - s) as u8)) != 0),
{
}

pub proof fn lemma_single_bit64(p: u64, i: u64)
    by (bit_vector)
    requires
        p < 64,
        i < 64,
    ensures
        ((1u64 << p) & (1u64 << i) != 0) == (p == i),
{
}

pub proof fn lemma_low_bit64(len: u64, i: u64)
    by (bit_vector)
    requires
        len < 64,
        i < 64,
    ensures
        (!(0xffff_ffff_ffff_ffffu64 << len) & (1u64 << i) != 0) == (i < len),
{
}

pub proof fn lemma_high_bit64(len: u64, i: u64)
    by (bit_vector)
    requires
        0 < len < 64,
        i < 64,
    ensures
        ((0xffff_ffff_ffff_ffffu64 << ((64 - len) as u64)) & (1u64 << i) != 0) == (i >= 64 - len),
{
}

pub proof fn lemma_all_bits64(i: u64)
    by (bit_vector)
    requires
        i < 64,
    ensures
        0xffff_ffff_ffff_ffffu64 & (1u64 << i) != 0,
        0u64 & (1u64 << i) == 0,
{
}

pub proof fn lemma_and_bit64(x: u64, y: u64, i: u64)
    by (bit_vector)
    requires
        i < 64,
    ensures
        ((x & y) & (1u64 << i) != 0) == (x & (1u64 << i) != 0 && y & (1u64 << i) != 0),
{
}

pub proof fn lemma_or_bit64(x: u64, y: u64, i: u64)
    by (bit_vector)
    requires
        i < 64,
    ensures
        ((x | y) & (1u64 << i) != 0) == (x & (1u64 << i) != 0 || y & (1u64 << i) != 0),
{
}

pub proof fn lemma_xor_bit64(x: u64, y: u64, i: u64)
    by (bit_vector)
    requires
        i < 64,
    ensures
        ((x ^ y) & (1u64 << i) != 0) == ((x & (1u64 << i) != 0) != (y & (1u64 << i) != 0)),
{
}

pub proof fn lemma_shl_bit64(x: u64, s: u64, i: u64)
    by (bit_vector)
    requires
        s < 64,
        i < 64,
    ensures
        ((x << s) & (1u64 << i) != 0) == (i >= s && x & (1u64 << ((i - s) as u64)) != 0),
{
}


pub proof fn lemma_not_bit8(x: u8, i: u8)
    by (bit_vector)
    requires
        i < 8,
    ensures
        ((!x) & (1u8 << i) != 0) == !(x & (1u8 << i) != 0),
{
}

pub proof fn lemma_shr_bit8(x: u8, s: u8, i: u8)
    by (bit_vector)
    requires
        s < 8,
        i < 8,
    ensures
        ((x >> s) & (1u8 << i) != 0) == (i + s < 8 && x & (1u8 << ((i + s) as u8)) != 0),
{
}

pub proof fn lemma_not_bit64(x: u64, i: u64)
    by (bit_vector)
    requires
        i < 64,
    ensures
        ((!x) & (1u64 << i) != 0) == !(x & (1u64 << i) != 0),
{
}

pub proof fn lemma_shr_bit64(x: u64, s: u64, i: u64)
    by (bit_vector)
    requires
        s < 64,
        i < 64,
    ensures
        ((x >> s) & (1u64 << i) != 0) == (i + s < 64 && x & (1u64 << ((i + s) as u64)) != 0),
{
}

pub proof fn lemma_double_plus_one8(x: u8)
    by (bit_vector)
    ensures
        (x << 1u8) < 255u8,
        ((x << 1u8) + 1u8) as u8 == (x << 1u8) | 1u8,
{
}

pub proof fn lemma_bit_zero8()
    ensures
        bit8(0) == 1,
{
    assert(bit8(0) == 1) by (bit_vector);
}

pub proof fn lemma_double_plus_one64(x: u64)
    by (bit_vector)
    ensures
        (x << 1u64) < 0xffff_ffff_ffff_ffffu64,
        ((x << 1u64) + 1u64) as u64 == (x << 1u64) | 1u64,
{
}

pub proof fn lemma_bit_zero64()
    ensures
        bit64(0) == 1,
{
    assert(bit64(0) == 1) by (bit_vector);
}

pub proof fn lemma_byte_shift_bit64(b: u8, k: u64, i: u64)
    by (bit_vector)
    requires
        k < 8,
        i < 64,
    ensures
        (((b as u64) << (8 * k)) & (1u64 << i) != 0) == (8 * k <= i && i < 8 * k + 8 && (b & (1u8
            << ((i - 8 * k) as u8))) != 0),
{
}

} // verus!
