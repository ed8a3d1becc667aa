//! Bit strings as genomes: a bit-string interface whose compound operations
//! are written once over a few primitive ones, and the standard mutation and
//! crossover built on it.

use vstd::prelude::*;
use crate::bit::Bit;

verus! {

/// A fixed-width string of bits, numbered from the least significant.
pub trait Bitstring: Sized {
    /// The number of bits.
    spec fn bwidth() -> nat;

    /// Whether bit `i` is set.
    spec fn bit_at(&self, i: nat) -> bool;

    proof fn lemma_bwidth()
        ensures
            0 < Self::bwidth() <= 64,
    ;

    /// No bit set.
    fn bzero() -> (r: Self)
        ensures
            forall|i: nat| i < Self::bwidth() ==> !(#[trigger] r.bit_at(i)),
    ;

    /// Only bit 0 set.
    fn bone() -> (r: Self)
        ensures
            forall|i: nat| i < Self::bwidth() ==> #[trigger] r.bit_at(i) == (i == 0),
    ;

    /// The `len` lowest bits set.
    fn bone_low(len: usize) -> (r: Self)
        requires
            len <= Self::bwidth(),
        ensures
            forall|i: nat| i < Self::bwidth() ==> #[trigger] r.bit_at(i) == (i < len),
    ;

    /// The `len` highest bits set.
    fn bone_high(len: usize) -> (r: Self)
        requires
            len <= Self::bwidth(),
        ensures
            forall|i: nat| i < Self::bwidth() ==> #[trigger] r.bit_at(i) == (i + len >= Self::bwidth()),
    {
        if len == 0 {
            Self::bzero()
        } else {
            proof {
                Self::lemma_bwidth();
            }
            let mut v = Self::bone_low(len);
            let w = v.blen();
            let ghost v0 = v;
            v.blshift(w - len);
            proof {
                assert forall|i: nat| i < Self::bwidth() implies #[trigger] v.bit_at(i) == (i + len
                    >= Self::bwidth()) by {
                    if i + len >= Self::bwidth() {
                        assert(v0.bit_at((i - (w - len)) as nat));
                    }
                }
            }
            v
        }
    }

    /// Returns the number of bits.
    fn blen(&self) -> (r: usize)
        ensures
            r == Self::bwidth(),
    ;

    /// Keeps the bits set in both.
    fn band(&mut self, other: &Self)
        ensures
            forall|i: nat| i < Self::bwidth() ==> #[trigger] final(self).bit_at(i) == (old(self).bit_at(i) && other.bit_at(i)),
    ;

    /// Keeps the bits set in either.
    fn bor(&mut self, other: &Self)
        ensures
            forall|i: nat| i < Self::bwidth() ==> #[trigger] final(self).bit_at(i) == (old(self).bit_at(i) || other.bit_at(i)),
    ;

    /// Inverts every bit.
    fn bneg(&mut self)
        ensures
            forall|i: nat| i < Self::bwidth() ==> #[trigger] final(self).bit_at(i) == !old(self).bit_at(i),
    ;

    /// Keeps the bits set in exactly one.
    fn bxor(&mut self, other: &Self)
        ensures
            forall|i: nat| i < Self::bwidth() ==> #[trigger] final(self).bit_at(i) == (old(self).bit_at(i) != other.bit_at(i)),
    ;

    /// Moves every bit `len` places up; zeros come in.
    fn blshift(&mut self, len: usize)
        requires
            len < Self::bwidth(),
        ensures
            forall|i: nat| i < Self::bwidth() ==> #[trigger] final(self).bit_at(i) == (i >= len && old(self).bit_at((i - len) as nat)),
    ;

    /// Only bit `p` set.
    fn bpow2(p: usize) -> (r: Self)
        requires
            p < Self::bwidth(),
        ensures
            forall|i: nat| i < Self::bwidth() ==> #[trigger] r.bit_at(i) == (i == p),
    ;

    /// Clears bit `ndx`.
    fn brst(&mut self, ndx: usize)
        requires
            ndx < Self::bwidth(),
        ensures
            forall|i: nat| i < Self::bwidth() ==> #[trigger] final(self).bit_at(i) == (i != ndx && old(self).bit_at(i)),
    {
        let mut m = Self::bpow2(ndx);
        m.bneg();
        self.band(&m);
    }

    /// Sets bit `ndx`.
    fn bset(&mut self, ndx: usize)
        requires
            ndx < Self::bwidth(),
        ensures
            forall|i: nat| i < Self::bwidth() ==> #[trigger] final(self).bit_at(i) == (i == ndx || old(self).bit_at(i)),
    {
        self.brst(ndx);
        self.bor(&Self::bpow2(ndx));
    }

    /// Inverts bit `ndx`.
    fn bflip(&mut self, ndx: usize)
        requires
            ndx < Self::bwidth(),
        ensures
            forall|i: nat| i < Self::bwidth() ==> #[trigger] final(self).bit_at(i) == (old(self).bit_at(i) != (i == ndx)),
    {
        self.bxor(&Self::bpow2(ndx));
    }

    /// Returns bit `ndx`.
    fn bget(&self, ndx: usize) -> (r: Bit)
        requires
            ndx < Self::bwidth(),
        ensures
            r == Bit::of(self.bit_at(ndx as nat)),
    ;

    /// Clears the `len` lowest bits.
    fn brst_low(&mut self, len: usize)
        requires
            len <= Self::bwidth(),
        ensures
            forall|i: nat| i < Self::bwidth() ==> #[trigger] final(self).bit_at(i) == (i >= len && old(self).bit_at(i)),
    {
        let ghost s0 = *self;
        let mut i: usize = 0;
        while i < len
            invariant
                i <= len <= Self::bwidth(),
                forall|j: nat| j < Self::bwidth() ==> #[trigger] self.bit_at(j) == (j >= i && s0.bit_at(j)),
            decreases len - i,
        {
            self.brst(i);
            i += 1;
        }
    }

    /// Clears the `len` highest bits.
    fn brst_high(&mut self, len: usize)
        requires
            len <= Self::bwidth(),
        ensures
            forall|i: nat| i < Self::bwidth() ==> #[trigger] final(self).bit_at(i) == (i + len < Self::bwidth() && old(self).bit_at(i)),
    {
        let ghost s0 = *self;
        let blen = self.blen();
        let mut i: usize = blen - len;
        while i < blen
            invariant
                blen == Self::bwidth(),
                blen - len <= i <= blen,
                len <= blen,
                forall|j: nat| j < Self::bwidth() ==> #[trigger] self.bit_at(j) == (!(blen - len <= j < i) && s0.bit_at(j)),
            decreases blen - i,
        {
            self.brst(i);
            i += 1;
        }
    }

    /// The bits below `cut`, and the bits from `cut` on.
    fn bsplit(&self, cut: usize) -> (r: (Self, Self))
        requires
            cut <= Self::bwidth(),
        ensures
            forall|i: nat| i < Self::bwidth() ==> #[trigger] r.0.bit_at(i) == (i < cut && self.bit_at(i)),
            forall|i: nat| i < Self::bwidth() ==> #[trigger] r.1.bit_at(i) == (i >= cut && self.bit_at(i)),
    ;

    /// The bytes, least significant first.
    fn bueights(&self) -> (r: Vec<u8>)
        ensures
            r@.len() * 8 == Self::bwidth(),
    ;

    /// Sets every bit that is set in `other`.
    fn bcombine(&mut self, other: &Self)
        ensures
            forall|i: nat| i < Self::bwidth() ==> #[trigger] final(self).bit_at(i) == (old(self).bit_at(i) || other.bit_at(i)),
    {
        self.bor(other);
    }
}

/// A readable rendering of a bit string.
pub trait BitstringDebug {
    /// The value in decimal, then its bits, most significant first.
    fn bdebug(&self) -> String;
}

/// Genetic operators on bit strings.
pub trait Evolution<A: Bitstring> {
    /// Mutates the bit of `bstr` at `ndx`.
    fn mutate(bstr: &mut A, ndx: usize)
        requires
            ndx < A::bwidth(),
        ensures
            forall|i: nat| i < A::bwidth() ==> #[trigger] final(bstr).bit_at(i) == (old(bstr).bit_at(i) != (i == ndx)),
    ;

    /// Exchanges the bits of `a` and `b` from `cut` on.
    fn crossover(a: &mut A, b: &mut A, cut: usize)
        requires
            cut <= A::bwidth(),
        ensures
            forall|i: nat| i < A::bwidth() ==> #[trigger] final(a).bit_at(i) == if i < cut { old(a).bit_at(i) } else { old(b).bit_at(i) },
            forall|i: nat| i < A::bwidth() ==> #[trigger] final(b).bit_at(i) == if i < cut { old(b).bit_at(i) } else { old(a).bit_at(i) },
    ;
}

/// The standard genetic operators: flip one bit; swap the tails at a cut.
pub struct Standard {}

impl<A: Bitstring> Evolution<A> for Standard {
    fn mutate(bstr: &mut A, ndx: usize) {
        bstr.bflip(ndx)
    }

    fn crossover(a: &mut A, b: &mut A, cut: usize) {
        let (mut al, ah) = a.bsplit(cut);
        let (mut bl, bh) = b.bsplit(cut);
        al.bcombine(&bh);
        bl.bcombine(&ah);
        *a = al;
        *b = bl;
    }
}

} // verus!
