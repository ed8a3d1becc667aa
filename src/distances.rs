//! Edit distances between byte strings.

use vstd::prelude::*;

verus! {

/// The least of three numbers.
pub open spec fn min3(a: nat, b: nat, c: nat) -> nat {
    if a <= b && a <= c {
        a
    } else if b <= c {
        b
    } else {
        c
    }
}

/// The Levenshtein distance: the fewest single-element insertions,
/// deletions and substitutions that turn `xs` into `ys`.
pub open spec fn edit_distance(xs: Seq<u8>, ys: Seq<u8>) -> nat
    decreases xs.len() + ys.len(),
{
    if ys.len() == 0 {
        xs.len()
    } else if xs.len() == 0 {
        ys.len()
    } else if xs[0] == ys[0] {
        edit_distance(xs.drop_first(), ys.drop_first())
    } else {
        1 + min3(
            edit_distance(xs.drop_first(), ys),
            edit_distance(xs, ys.drop_first()),
            edit_distance(xs.drop_first(), ys.drop_first()),
        )
    }
}

/// The number of positions at which `xs` and `ys` differ.
pub open spec fn mismatches(xs: Seq<u8>, ys: Seq<u8>) -> nat
    decreases xs.len(),
{
    if xs.len() == 0 || ys.len() == 0 {
        0
    } else {
        (if xs[0] != ys[0] {
            1nat
        } else {
            0nat
        }) + mismatches(xs.drop_first(), ys.drop_first())
    }
}

/// The edit distance between the suffixes of `xs` and `ys` from `i` and `j`.
fn levenshtein_from(xs: &[u8], ys: &[u8], i: usize, j: usize) -> (r: usize)
    requires
        i <= xs@.len(),
        j <= ys@.len(),
        xs@.len() + ys@.len() <= usize::MAX,
    ensures
        r == edit_distance(xs@.skip(i as int), ys@.skip(j as int)),
        r <= (xs@.len() - i) + (ys@.len() - j),
    decreases (xs@.len() - i) + (ys@.len() - j),
{
    let ghost a = xs@.skip(i as int);
    let ghost b = ys@.skip(j as int);
    proof {
        assert(a.len() > 0 ==> a.drop_first() =~= xs@.skip(i + 1));
        assert(b.len() > 0 ==> b.drop_first() =~= ys@.skip(j + 1));
    }
    if j == ys.len() {
        xs.len() - i
    } else if i == xs.len() {
        ys.len() - j
    } else if xs[i] == ys[j] {
        levenshtein_from(xs, ys, i + 1, j + 1)
    } else {
        let a = levenshtein_from(xs, ys, i + 1, j);
        let b = levenshtein_from(xs, ys, i, j + 1);
        let c = levenshtein_from(xs, ys, i + 1, j + 1);
        let m = if a <= b {
            a
        } else {
            b
        };
        let m = if m <= c {
            m
        } else {
            c
        };
        1 + m
    }
}

/// The Levenshtein distance between `xs` and `ys`.
pub fn levenshtein(xs: &[u8], ys: &[u8]) -> (r: usize)
    requires
        xs@.len() + ys@.len() <= usize::MAX,
    ensures
        r == edit_distance(xs@, ys@),
{
    proof {
        assert(xs@.skip(0) =~= xs@);
        assert(ys@.skip(0) =~= ys@);
    }
    levenshtein_from(xs, ys, 0, 0)
}

/// The Hamming distance between two strings of the same length.
pub fn hamming(xs: &[u8], ys: &[u8]) -> (r: usize)
    requires
        xs@.len() == ys@.len(),
    ensures
        r == mismatches(xs@, ys@),
{
    let mut acc: usize = 0;
    let mut k: usize = xs.len();
    while k > 0
        invariant
            k <= xs@.len(),
            xs@.len() == ys@.len(),
            acc == mismatches(xs@.skip(k as int), ys@.skip(k as int)),
            acc <= xs@.len() - k,
        decreases k,
    {
        k -= 1;
        proof {
            assert(xs@.skip(k as int).drop_first() =~= xs@.skip(k + 1));
            assert(ys@.skip(k as int).drop_first() =~= ys@.skip(k + 1));
            lemma_mismatches_bound(xs@.skip(k + 1), ys@.skip(k + 1));
        }
        if xs[k] != ys[k] {
            acc = acc + 1;
        }
    }
    proof {
        assert(xs@.skip(0) =~= xs@);
        assert(ys@.skip(0) =~= ys@);
    }
    acc
}

proof fn lemma_mismatches_bound(xs: Seq<u8>, ys: Seq<u8>)
    ensures
        mismatches(xs, ys) <= xs.len(),
    decreases xs.len(),
{
    if xs.len() > 0 && ys.len() > 0 {
        lemma_mismatches_bound(xs.drop_first(), ys.drop_first());
    }
}

/// The offsets a Sift3 scan settles on after a mismatch at column `c`: the
/// first `i` from `from` on, below `max`, with `xs[c + i] == ys[c]` gives
/// `(i, 0)`; failing that at `i`, `xs[c] == ys[c + i]` gives `(0, i)`; if no
/// `i` qualifies, `(0, 0)`.
pub open spec fn sift3_offsets(xs: Seq<u8>, ys: Seq<u8>, c: int, from: int, max: int) -> (int, int)
    decreases max - from,
{
    if from >= max {
        (0, 0)
    } else if c + from < xs.len() && xs[c + from] == ys[c] {
        (from, 0)
    } else if c + from < ys.len() && xs[c] == ys[c + from] {
        (0, from)
    } else {
        sift3_offsets(xs, ys, c, from + 1, max)
    }
}

/// The matches a Sift3 scan counts from column `c` on, comparing `xs[c + o1]`
/// with `ys[c + o2]` and searching new offsets after each mismatch.
pub open spec fn sift3_common(xs: Seq<u8>, ys: Seq<u8>, max: int, c: int, o1: int, o2: int) -> nat
    decreases xs.len() - c,
{
    if !(0 <= c && 0 <= o1 && 0 <= o2 && c + o1 < xs.len() && c + o2 < ys.len()) {
        0
    } else if xs[c + o1] == ys[c + o2] {
        1 + sift3_common(xs, ys, max, c + 1, o1, o2)
    } else {
        sift3_common(xs, ys, max, c + 1, sift3_offsets(xs, ys, c, 0, max).0, sift3_offsets(xs, ys, c, 0, max).1)
    }
}

proof fn lemma_sift3_offsets_bound(xs: Seq<u8>, ys: Seq<u8>, c: int, from: int, max: int)
    requires
        0 <= from,
    ensures
        0 <= sift3_offsets(xs, ys, c, from, max).0 < if max > 0 { max } else { 1 },
        0 <= sift3_offsets(xs, ys, c, from, max).1 < if max > 0 { max } else { 1 },
    decreases max - from,
{
    if from < max && !(c + from < xs.len() && xs[c + from] == ys[c]) && !(c + from < ys.len() && xs[c] == ys[c + from]) {
        lemma_sift3_offsets_bound(xs, ys, c, from + 1, max);
    }
}

proof fn lemma_sift3_common_bound(xs: Seq<u8>, ys: Seq<u8>, max: int, c: int, o1: int, o2: int)
    requires
        0 <= c,
    ensures
        sift3_common(xs, ys, max, c, o1, o2) <= if c <= xs.len() { xs.len() - c } else { 0 },
    decreases xs.len() - c,
{
    if 0 <= o1 && 0 <= o2 && c + o1 < xs.len() && c + o2 < ys.len() {
        let o = sift3_offsets(xs, ys, c, 0, max);
        lemma_sift3_common_bound(xs, ys, max, c + 1, o1, o2);
        lemma_sift3_common_bound(xs, ys, max, c + 1, o.0, o.1);
    }
}

/// The number of matches the Sift3 estimate counts between `xs` and `ys`,
/// searching up to `max_offset` places ahead after a mismatch.
pub fn sift3_matches(xs: &[u8], ys: &[u8], max_offset: usize) -> (r: usize)
    ensures
        r == sift3_common(xs@, ys@, max_offset as int, 0, 0, 0),
        r <= xs@.len(),
{
    let len_xs = xs.len();
    let len_ys = ys.len();
    let mut c: usize = 0;
    let mut offset1: usize = 0;
    let mut offset2: usize = 0;
    let mut lcs: usize = 0;
    proof {
        lemma_sift3_common_bound(xs@, ys@, max_offset as int, 0, 0, 0);
    }
    while offset1 < len_xs - c && offset2 < len_ys - c
        invariant
            len_xs == xs@.len(),
            len_ys == ys@.len(),
            c <= len_xs,
            c <= len_ys,
            lcs <= c,
            lcs + sift3_common(xs@, ys@, max_offset as int, c as int, offset1 as int, offset2 as int)
                == sift3_common(xs@, ys@, max_offset as int, 0, 0, 0),
            sift3_common(xs@, ys@, max_offset as int, 0, 0, 0) <= len_xs,
        decreases len_xs - c,
    {
        if xs[c + offset1] == ys[c + offset2] {
            lcs += 1;
        } else {
            let ghost want = sift3_offsets(xs@, ys@, c as int, 0, max_offset as int);
            offset1 = 0;
            offset2 = 0;
            let mut i: usize = 0;
            let mut searching = true;
            while searching && i < max_offset
                invariant
                    c < len_xs,
                    c < len_ys,
                    len_xs == xs@.len(),
                    len_ys == ys@.len(),
                    i <= max_offset,
                    searching ==> offset1 == 0 && offset2 == 0 && sift3_offsets(
                        xs@,
                        ys@,
                        c as int,
                        i as int,
                        max_offset as int,
                    ) == want,
                    !searching ==> (offset1 as int, offset2 as int) == want,
                decreases (max_offset - i) * 2 + if searching { 1int } else { 0int },
            {
                if i < len_xs - c && xs[c + i] == ys[c] {
                    offset1 = i;
                    searching = false;
                } else if i < len_ys - c && xs[c] == ys[c + i] {
                    offset2 = i;
                    searching = false;
                } else {
                    i += 1;
                }
            }
            proof {
                assert((offset1 as int, offset2 as int) == want);
            }
        }
        c += 1;
    }
    lcs
}

} // verus!
