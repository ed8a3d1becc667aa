//! Text renderings of numbers: decimal digits, eight binary digits of a
//! byte, and left padding to a width.

use vstd::prelude::*;
use vstd::string::StringExecFns;
use crate::bitstring::has_bit8;

verus! {

/// The decimal digit for `d`, which is below ten.
pub open spec fn digit_char(d: nat) -> char {
    if d == 0 { '0' } else if d == 1 { '1' } else if d == 2 { '2' } else if d == 3 { '3' }
    else if d == 4 { '4' } else if d == 5 { '5' } else if d == 6 { '6' } else if d == 7 { '7' }
    else if d == 8 { '8' } else { '9' }
}

/// The decimal digits of `n`, most significant first, without leading zeros.
pub open spec fn decimal(n: nat) -> Seq<char>
    decreases n,
{
    if n < 10 {
        seq![digit_char(n)]
    } else {
        decimal(n / 10).push(digit_char(n % 10))
    }
}

/// The eight binary digits of `b`, most significant first.
pub open spec fn binary8(b: u8) -> Seq<char> {
    Seq::new(8, |i: int| if has_bit8(b, (7 - i) as nat) { '1' } else { '0' })
}

/// `s` preceded by spaces up to `width` characters; unchanged if already as long.
pub open spec fn pad_left(s: Seq<char>, width: nat) -> Seq<char> {
    if s.len() >= width {
        s
    } else {
        Seq::new((width - s.len()) as nat, |_i: int| ' ') + s
    }
}

/// Relies on `ToString for u64`: the decimal digits of `x`, no sign, no padding.
#[verifier::external_body]
pub(crate) fn decimal_u64(x: u64) -> (r: String)
    ensures
        r@ == decimal(x as nat),
{
    x.to_string()
}

/// Relies on `format!` with `{:08b}`: the binary digits of `b`, zero-padded
/// to eight.
#[verifier::external_body]
pub(crate) fn binary_u8(b: u8) -> (r: String)
    ensures
        r@ == binary8(b),
{
    format!("{:08b}", b)
}

/// Appends `s` to `out`, preceded by spaces up to `width` characters.
pub fn append_padded(out: &mut String, s: &String, width: usize)
    ensures
        final(out)@ == old(out)@ + pad_left(s@, width as nat),
{
    let n = s.as_str().unicode_len();
    if n < width {
        let mut k: usize = n;
        while k < width
            invariant
                n <= k <= width,
                n == s@.len(),
                out@ == old(out)@ + Seq::new((k - n) as nat, |_i: int| ' '),
            decreases width - k,
        {
            out.append(" ");
            proof {
                reveal_strlit(" ");
                assert(out@ =~= old(out)@ + Seq::new((k + 1 - n) as nat, |_i: int| ' '));
            }
            k += 1;
        }
    }
    out.append(s.as_str());
    proof {
        assert(out@ =~= old(out)@ + pad_left(s@, width as nat));
    }
}

} // verus!
