//! Integers as little-endian bytes, and the difficulty number read from the
//! tail of a hash.

use vstd::prelude::*;

verus! {

/// The bytes of `u`, least significant first.
pub fn u16_to_bytes(u: &u16) -> (r: [u8; 2])
    ensures
        r@[0] == *u as u8,
        r@[1] == (*u >> 8u16) as u8,
{
    [#[verifier::truncate] (*u as u8), #[verifier::truncate] ((*u >> 8u16) as u8)]
}

/// The bytes of `u`, least significant first.
pub fn u32_to_bytes(u: &u32) -> (r: [u8; 4])
    ensures
        r@[0] == *u as u8,
        r@[1] == (*u >> 8u32) as u8,
        r@[2] == (*u >> 16u32) as u8,
        r@[3] == (*u >> 24u32) as u8,
{
    [#[verifier::truncate] (*u as u8), #[verifier::truncate] ((*u >> 8u32) as u8), #[verifier::truncate] ((*u >> 16u32) as u8), #[verifier::truncate] ((*u >> 24u32) as u8)]
}

/// The bytes of `u`, least significant first.
pub fn u64_to_bytes(u: &u64) -> (r: [u8; 8])
    ensures
        r@[0] == *u as u8,
        r@[1] == (*u >> 8u64) as u8,
        r@[2] == (*u >> 16u64) as u8,
        r@[3] == (*u >> 24u64) as u8,
        r@[4] == (*u >> 32u64) as u8,
        r@[5] == (*u >> 40u64) as u8,
        r@[6] == (*u >> 48u64) as u8,
        r@[7] == (*u >> 56u64) as u8,
{
    [
        #[verifier::truncate] (*u as u8),
        #[verifier::truncate] ((*u >> 8u64) as u8),
        #[verifier::truncate] ((*u >> 16u64) as u8),
        #[verifier::truncate] ((*u >> 24u64) as u8),
        #[verifier::truncate] ((*u >> 32u64) as u8),
        #[verifier::truncate] ((*u >> 40u64) as u8),
        #[verifier::truncate] ((*u >> 48u64) as u8),
        #[verifier::truncate] ((*u >> 56u64) as u8),
    ]
}

/// The bytes of `u`, least significant first.
pub fn u128_to_bytes(u: &u128) -> (r: [u8; 16])
    ensures
        r@[0] == *u as u8,
        r@[1] == (*u >> 8u128) as u8,
        r@[2] == (*u >> 16u128) as u8,
        r@[3] == (*u >> 24u128) as u8,
        r@[4] == (*u >> 32u128) as u8,
        r@[5] == (*u >> 40u128) as u8,
        r@[6] == (*u >> 48u128) as u8,
        r@[7] == (*u >> 56u128) as u8,
        r@[8] == (*u >> 64u128) as u8,
        r@[9] == (*u >> 72u128) as u8,
        r@[10] == (*u >> 80u128) as u8,
        r@[11] == (*u >> 88u128) as u8,
        r@[12] == (*u >> 96u128) as u8,
        r@[13] == (*u >> 104u128) as u8,
        r@[14] == (*u >> 112u128) as u8,
        r@[15] == (*u >> 120u128) as u8,
{
    [
        #[verifier::truncate] (*u as u8),
        #[verifier::truncate] ((*u >> 8u128) as u8),
        #[verifier::truncate] ((*u >> 16u128) as u8),
        #[verifier::truncate] ((*u >> 24u128) as u8),
        #[verifier::truncate] ((*u >> 32u128) as u8),
        #[verifier::truncate] ((*u >> 40u128) as u8),
        #[verifier::truncate] ((*u >> 48u128) as u8),
        #[verifier::truncate] ((*u >> 56u128) as u8),
        #[verifier::truncate] ((*u >> 64u128) as u8),
        #[verifier::truncate] ((*u >> 72u128) as u8),
        #[verifier::truncate] ((*u >> 80u128) as u8),
        #[verifier::truncate] ((*u >> 88u128) as u8),
        #[verifier::truncate] ((*u >> 96u128) as u8),
        #[verifier::truncate] ((*u >> 104u128) as u8),
        #[verifier::truncate] ((*u >> 112u128) as u8),
        #[verifier::truncate] ((*u >> 120u128) as u8),
    ]
}

/// `256` to the power `k`.
pub open spec fn pow256(k: nat) -> nat
    decreases k,
{
    if k == 0 {
        1
    } else {
        256 * pow256((k - 1) as nat)
    }
}

/// The number whose base-256 digits, most significant first, are
/// `xs[31]`, `xs[30]`, ..., down to `xs[32 - len]`.
pub open spec fn difficulty(xs: Seq<u8>, len: nat) -> nat
    decreases len,
{
    if len == 0 {
        0
    } else {
        difficulty(xs, (len - 1) as nat) * 256 + xs[31 - (len - 1)] as nat
    }
}

proof fn lemma_pow256_grows(a: nat, b: nat)
    requires
        a <= b,
    ensures
        pow256(a) <= pow256(b),
    decreases b,
{
    if a < b {
        lemma_pow256_grows(a, (b - 1) as nat);
    }
}

/// The difficulty number of the `len` bytes that end at index 31 of `xs`,
/// read with `xs[31]` as the most significant byte.
pub fn difficulty_bytes(xs: &[u8], len: usize) -> (r: u128)
    requires
        len == 0 || xs@.len() >= 32,
        len <= 16,
    ensures
        r == difficulty(xs@, len as nat),
{
    proof {
        reveal_with_fuel(pow256, 17);
        assert(pow256(16) == 0x1_0000_0000_0000_0000_0000_0000_0000_0000);
        lemma_pow256_grows(len as nat, 16);
    }
    let mut u: u128 = 0;
    let mut i: usize = 0;
    while i < len
        invariant
            i <= len <= 16,
            len == 0 || xs@.len() >= 32,
            u == difficulty(xs@, i as nat),
            u < pow256(i as nat),
            pow256(len as nat) <= 0x1_0000_0000_0000_0000_0000_0000_0000_0000,
        decreases len - i,
    {
        proof {
            lemma_pow256_grows((i + 1) as nat, len as nat);
        }
        u = u * 256 + xs[31 - i] as u128;
        i += 1;
    }
    u
}

/// A hash whose last `diff_len` bytes carry a difficulty number.
pub struct DifficultHash {
    diff_len: usize,
    regular_len: usize,
    data: Vec<u8>,
}

impl DifficultHash {
    /// The bytes of the hash.
    pub closed spec fn bytes(&self) -> Seq<u8> {
        self.data@
    }

    /// How many trailing bytes carry the difficulty.
    pub closed spec fn difficulty_len(&self) -> nat {
        self.diff_len as nat
    }

    /// How many leading bytes are ordinary hash bytes.
    pub closed spec fn regular_len(&self) -> nat {
        self.regular_len as nat
    }

    /// A hash of `data` whose last `diff_len` bytes carry the difficulty.
    pub fn new(data: Vec<u8>, diff_len: usize) -> (r: DifficultHash)
        requires
            diff_len <= data@.len(),
        ensures
            r.bytes() == data@,
            r.difficulty_len() == diff_len,
            r.regular_len() == data@.len() - diff_len,
    {
        let regular_len = data.len() - diff_len;
        DifficultHash { diff_len, regular_len, data }
    }

    /// A hash of `data` whose last 16 bytes carry the difficulty.
    pub fn new16(data: Vec<u8>) -> (r: DifficultHash)
        requires
            16 <= data@.len(),
        ensures
            r.bytes() == data@,
            r.difficulty_len() == 16,
            r.regular_len() == data@.len() - 16,
    {
        DifficultHash::new(data, 16)
    }

    /// The difficulty number of the hash.
    pub fn diff128(&self) -> (r: u128)
        requires
            self.difficulty_len() == 0 || self.bytes().len() >= 32,
            self.difficulty_len() <= 16,
        ensures
            r == difficulty(self.bytes(), self.difficulty_len()),
    {
        difficulty_bytes(self.data.as_slice(), self.diff_len)
    }
}

} // verus!
