use yos::bit::Bit;
use yos::bitstring::Bitstring;
use yos::bu8::Bu8;
use yos::mask::{get_u8, pow2_u8, rst_u8, set_u8};

#[test]
fn bu8_test_pow2() {
    assert_eq!(pow2_u8(0), 1);
    assert_eq!(pow2_u8(1), 2);
    assert_eq!(pow2_u8(2), 4);
    assert_eq!(pow2_u8(3), 8);
    assert_eq!(pow2_u8(4), 16);
    assert_eq!(pow2_u8(5), 32);
    assert_eq!(pow2_u8(6), 64);
    assert_eq!(pow2_u8(7), 128);
    assert_eq!(Bu8::pow2(2).0, 4);
}

#[test]
fn bu8_test_rst() {
    let y = rst_u8(3, 0);
    assert_eq!(y, 2);
    let mut bstr = Bu8::from(5);
    bstr.rst(2);
    assert_eq!(bstr.0, 1);
}

#[test]
fn bu8_test_set() {
    let y = set_u8(2, 0);
    assert_eq!(y, 3);
    let mut bstr = Bu8::from(5);
    bstr.set(1);
    assert_eq!(bstr.0, 7);
}

#[test]
fn bu8_test_get() {
    let x = 3u8;
    assert_eq!(get_u8(x, 0), 1);
    assert_eq!(get_u8(x, 1), 2);
    assert_eq!(get_u8(x, 2), 0);
    let bstr = Bu8::from(5);
    assert_eq!(bstr.get(0), Bit::One);
    assert_eq!(bstr.get(1), Bit::Zero);
    assert_eq!(bstr.get(2), Bit::One);
}

#[test]
fn bu8_test_and() {
    let x = Bu8::from(5);
    let y = x & Bu8::from(3);
    assert_eq!(y.0, 1);
}

#[test]
fn bu8_test_and_assign() {
    let mut x = Bu8::from(5);
    x &= Bu8::from(3);
    assert_eq!(x.0, 1);
}

#[test]
fn bu8_test_or() {
    let x = Bu8::from(5);
    let y = x | Bu8::from(3);
    assert_eq!(y.0, 7);
}

#[test]
fn bu8_test_or_assign() {
    let mut x = Bu8::from(5);
    x |= Bu8::from(3);
    assert_eq!(x.0, 7);
}

#[test]
fn bu8_test_xor() {
    let x = Bu8::from(5);
    let y = x ^ Bu8::from(3);
    assert_eq!(y.0, 6);
}

#[test]
fn bu8_test_xor_assign() {
    let mut x = Bu8::from(5);
    x ^= Bu8::from(3);
    assert_eq!(x.0, 6);
}

#[test]
fn bu8_test_not_assign() {
    let x = Bu8::from(0b0000_0001);
    let y = !x;
    assert_eq!(y.0, 0b1111_1110)
}

#[test]
fn bu8_test_shr() {
    let x = Bu8::from(5);
    let y = x >> 1;
    assert_eq!(y.0, 2);
}

#[test]
fn bu8_test_shl() {
    let x = Bu8::from(3);
    let y = x << 1;
    assert_eq!(y.0, 6);
}

#[test]
fn bu8_test_zero() {
    assert_eq!(Bu8::zero().0, 0);
}

#[test]
fn bu8_test_one() {
    assert_eq!(Bu8::one().0, 1);
}

#[test]
fn bu8_test_low_ones() {
    assert_eq!(Bu8::low_ones(2).0, 3);
}

#[test]
fn bu8_test_high_ones() {
    assert_eq!(Bu8::high_ones(7).0, 254);
}

#[test]
fn test_range_ones() {
    assert_eq!(Bu8::range_ones(0, 0).0, 0);
    assert_eq!(Bu8::range_ones(2, 1).0, 4);
    assert_eq!(Bu8::range_ones(2, 2).0, 12);
    assert_eq!(Bu8::range_ones(0, 8).0, 255);
}

#[test]
fn test_range_zeros() {
    assert_eq!(Bu8::range_zeros(0, 8).0, 0);
    assert_eq!(Bu8::range_zeros(0, 0).0, 255);
    assert_eq!(Bu8::range_zeros(1, 7).0, 1);
    assert_eq!(Bu8::range_zeros(1, 6).0, 129);
}

#[test]
fn bu8_test_len() {
    assert_eq!(Bu8::len(), 8);
}

#[test]
fn bu8_test_rst_low() {
    let mut x = Bu8::from(5);
    x.rst_low(1);
    assert_eq!(x.0, 4);
}

#[test]
fn bu8_test_rst_high() {
    let mut x = Bu8::from(5);
    x.rst_high(6);
    assert_eq!(x.0, 1);
}

#[test]
fn bu8_test_set_low() {
    let mut x = Bu8::from(5);
    x.set_low(2);
    assert_eq!(x.0, 7);
}

#[test]
fn bu8_test_set_high() {
    let mut x = Bu8::from(6);
    x.set_high(7);
    assert_eq!(x.0, 254);
}

#[test]
fn test_combinators_split() {
    let x = Bu8::from(56u8);

    for i in 0..9 {
        let (h, t) = x.split(i);
        assert_eq!(h.0 + t.0, x.0);
    }
}

#[test]
fn test_combinators_flip() {
    let mut x = Bu8::from(6u8);
    x.flip(1);
    assert_eq!(x.0, 4);

    x.flip(1);
    assert_eq!(x.0, 6);
}

#[test]
fn bu8_test_combinators_combine() {
    let x = Bu8::from(56u8);
    for i in 0..9 {
        let (mut h, t) = x.split(i);
        assert_eq!(h.0 + t.0, x.0);
        h.combine(&t);
        assert_eq!(h, x);
    }
}

#[test]
fn bu8_conversions_round_trip() {
    for x in 0..=255u8 {
        let b = Bu8::from(x);
        let y: u8 = b.into();
        assert_eq!(x, y);
    }
    assert_eq!(Bu8::high_ones(0).0, 0);
    assert_eq!(Bu8::low_ones(8).0, 255);
    assert_eq!(Bu8::high_ones(8).0, 255);
    assert_eq!(Bu8::low_ones(0).0, 0);
}
