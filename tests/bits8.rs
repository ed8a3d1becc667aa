use yos::bit::Bit;
use yos::bits::{BitsConstructors, BitsRange};
use yos::bits8::{Bits8, IterBits8};
use yos::bitstring::Bitstring;
use yos::mask::{get_u8, pow2_u8, rst_u8, set_u8};

#[test]
fn bits8_test_pow2() {
    assert_eq!(pow2_u8(0), 1);
    assert_eq!(pow2_u8(1), 2);
    assert_eq!(pow2_u8(2), 4);
    assert_eq!(pow2_u8(3), 8);
    assert_eq!(pow2_u8(4), 16);
    assert_eq!(pow2_u8(5), 32);
    assert_eq!(pow2_u8(6), 64);
    assert_eq!(pow2_u8(7), 128);
    assert_eq!(Bits8::pow2(2).0, 4);
}

#[test]
fn bits8_test_rst() {
    let y = rst_u8(3, 0);
    assert_eq!(y, 2);
    let mut bstr = Bits8::from(5);
    bstr.rst(2);
    assert_eq!(bstr.0, 1);
}

#[test]
fn bits8_test_set() {
    let y = set_u8(2, 0);
    assert_eq!(y, 3);
    let mut bstr = Bits8::from(5);
    bstr.set(1);
    assert_eq!(bstr.0, 7);
}

#[test]
fn bits8_test_get() {
    let x = 3u8;
    assert_eq!(get_u8(x, 0), 1);
    assert_eq!(get_u8(x, 1), 2);
    assert_eq!(get_u8(x, 2), 0);
    let bstr = Bits8::from(5);
    assert_eq!(bstr.get(0), Bit::One);
    assert_eq!(bstr.get(1), Bit::Zero);
    assert_eq!(bstr.get(2), Bit::One);
}

#[test]
fn bits8_test_iter() {
    let bits = Bits8::one();
    let mut iter = IterBits8::new(bits);
    assert_eq!(Some(Bit::One), iter.next());
    assert_eq!(Some(Bit::Zero), iter.next());
    assert_eq!(Some(Bit::Zero), iter.next());
    assert_eq!(Some(Bit::Zero), iter.next());
    assert_eq!(Some(Bit::Zero), iter.next());
    assert_eq!(Some(Bit::Zero), iter.next());
    assert_eq!(Some(Bit::Zero), iter.next());
    assert_eq!(Some(Bit::Zero), iter.next());
    assert_eq!(None, iter.next());
}

#[test]
fn bits8_test_into_iter() {
    let bits = Bits8::one();
    let mut iter = bits.into_iter();
    assert_eq!(Some(Bit::One), iter.next());
    assert_eq!(Some(Bit::Zero), iter.next());
    assert_eq!(Some(Bit::Zero), iter.next());
    assert_eq!(Some(Bit::Zero), iter.next());
    assert_eq!(Some(Bit::Zero), iter.next());
    assert_eq!(Some(Bit::Zero), iter.next());
    assert_eq!(Some(Bit::Zero), iter.next());
    assert_eq!(Some(Bit::Zero), iter.next());
    assert_eq!(None, iter.next());
}

#[test]
fn bits8_test_enumerate() {
    let bits = Bits8::one();
    let mut iter = bits.into_iter();
    let mut ndx = 0;
    while let Some(b) = iter.next() {
        if ndx == 0 {
            assert_eq!(Bit::One, b);
        } else {
            assert_eq!(Bit::Zero, b);
        }
        ndx += 1;
    }
    assert_eq!(ndx, 8);
}

#[test]
fn bits8_test_add() {
    let x = Bits8::from(5);
    let y = x + Bits8::from(3);
    assert_eq!(y.0, 8);
}

#[test]
fn bits8_test_sub() {
    let x = Bits8::from(5);
    let y = x - Bits8::from(3);
    assert_eq!(y.0, 2);
}

#[test]
fn bits8_test_and() {
    let x = Bits8::from(5);
    let y = x & Bits8::from(3);
    assert_eq!(y.0, 1);
}

#[test]
fn bits8_test_and_assign() {
    let mut x = Bits8::from(5);
    x &= Bits8::from(3);
    assert_eq!(x.0, 1);
}

#[test]
fn bits8_test_or() {
    let x = Bits8::from(5);
    let y = x | Bits8::from(3);
    assert_eq!(y.0, 7);
}

#[test]
fn bits8_test_or_assign() {
    let mut x = Bits8::from(5);
    x |= Bits8::from(3);
    assert_eq!(x.0, 7);
}

#[test]
fn bits8_test_xor() {
    let x = Bits8::from(5);
    let y = x ^ Bits8::from(3);
    assert_eq!(y.0, 6);
}

#[test]
fn bits8_test_xor_assign() {
    let mut x = Bits8::from(5);
    x ^= Bits8::from(3);
    assert_eq!(x.0, 6);
}

#[test]
fn bits8_test_not_assign() {
    let x = Bits8::from(1);
    let y = !x;
    assert_eq!(y.0, 0b1111_1110)
}

#[test]
fn bits8_test_shr() {
    let x = Bits8::from(5);
    let y = x >> 1;
    assert_eq!(y.0, 2);
}

#[test]
fn bits8_test_shl() {
    let x = Bits8::from(3);
    let y = x << 1;
    assert_eq!(y.0, 6);
}

#[test]
fn bits8_test_zero() {
    assert_eq!(Bits8::zero().0, 0);
}

#[test]
fn bits8_test_one() {
    assert_eq!(Bits8::one().0, 1);
}

#[test]
fn bits8_test_with_all_ones() {
    assert_eq!(Bits8::with_all_ones().0, 255);
}

#[test]
fn bits8_test_with_low_ones() {
    assert_eq!(Bits8::with_low_ones(2).0, 3);
}

#[test]
fn bits8_test_with_high_ones() {
    assert_eq!(Bits8::with_high_ones(7).0, 0b1111_1110);
}

#[test]
fn bits8_test_split_at() {
    let x = Bits8::from(56u8);
    for i in 0..9 {
        let (h, t) = x.split_at(i);
        assert_eq!(h.0 + t.0, x.0);
    }
}

#[test]
fn bits8_test_len() {
    assert_eq!(Bits8::len(), 8);
}

#[test]
fn bits8_test_flip() {
    let mut x = Bits8::from(6u8);
    x.flip(1);
    assert_eq!(x.0, 4);
    x.flip(1);
    assert_eq!(x.0, 6);
}

#[test]
fn bits8_test_rst_low_range() {
    let mut x = Bits8::from(5);
    x.rst_low_range(1);
    assert_eq!(x.0, 4);
}

#[test]
fn bits8_test_rst_high_range() {
    let mut x = Bits8::from(5);
    x.rst_high_range(6);
    assert_eq!(x.0, 1);
}

#[test]
fn bits8_test_set_low_range() {
    let mut x = Bits8::from(5);
    x.set_low_range(2);
    assert_eq!(x.0, 7);
}

#[test]
fn bits8_test_set_high_range() {
    let mut x = Bits8::from(6);
    x.set_high_range(7);
    assert_eq!(x.0, 254);
}

#[test]
fn bits8_test_with_range_ones() {
    assert_eq!(Bits8::with_range_ones(0, 0).0, 0);
    assert_eq!(Bits8::with_range_ones(2, 1).0, 4);
    assert_eq!(Bits8::with_range_ones(2, 2).0, 12);
    assert_eq!(Bits8::with_range_ones(0, 8).0, 255);
}

#[test]
fn bits8_test_with_range_zeros() {
    assert_eq!(Bits8::with_range_zeros(0, 8).0, 0);
    assert_eq!(Bits8::with_range_zeros(0, 0).0, 255);
    assert_eq!(Bits8::with_range_zeros(1, 7).0, 1);
    assert_eq!(Bits8::with_range_zeros(1, 6).0, 129);
}

#[test]
fn bits8_test_combinators_combine() {
    let x = Bits8::from(56u8);
    for i in 0..9 {
        let (mut h, t) = x.split_at(i);
        assert_eq!(h.0 + t.0, x.0);
        h.combine(&t);
        assert_eq!(h, x);
    }
}

#[test]
fn bits8_conversions_round_trip() {
    let x = Bits8::from(0x5a);
    let y: u8 = x.into();
    assert_eq!(y, 0x5a);
    assert_eq!(Bits8::with_low_ones(0).0, 0);
    assert_eq!(Bits8::with_high_ones(0).0, 0);
}
