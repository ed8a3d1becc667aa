use yos::bit::Bit;
use yos::bits::{BitsConstructors, BitsRange};
use yos::bits64::{Bits64, IterBits64};
use yos::bitstring::Bitstring;
use yos::mask::{get_u64, pow2_u64, rst_u64, set_u64};

#[test]
fn bits64_test_pow2() {
    assert_eq!(pow2_u64(0), 1);
    assert_eq!(pow2_u64(1), 2);
    assert_eq!(pow2_u64(2), 4);
    assert_eq!(pow2_u64(3), 8);
    assert_eq!(pow2_u64(4), 16);
    assert_eq!(pow2_u64(5), 32);
    assert_eq!(pow2_u64(6), 64);
    assert_eq!(pow2_u64(7), 128);
    assert_eq!(Bits64::pow2(2).0, 4);
}

#[test]
fn bits64_test_rst() {
    let y = rst_u64(3, 0);
    assert_eq!(y, 2);
    let mut bstr = Bits64::from(5);
    bstr.rst(2);
    assert_eq!(bstr.0, 1);
}

#[test]
fn bits64_test_set() {
    let y = set_u64(2, 0);
    assert_eq!(y, 3);
    let mut bstr = Bits64::from(5);
    bstr.set(1);
    assert_eq!(bstr.0, 7);
}

#[test]
fn bits64_test_get() {
    let x = 3u64;
    assert_eq!(get_u64(x, 0), 1);
    assert_eq!(get_u64(x, 1), 2);
    assert_eq!(get_u64(x, 2), 0);
    let bstr = Bits64::from(5);
    assert_eq!(bstr.get(0), Bit::One);
    assert_eq!(bstr.get(1), Bit::Zero);
    assert_eq!(bstr.get(2), Bit::One);
}

#[test]
fn bits64_test_iter() {
    let bits = Bits64::one();
    let mut iter = IterBits64::new(bits);
    assert_eq!(Some(Bit::One), iter.next());
    assert_eq!(Some(Bit::Zero), iter.next());
    assert_eq!(Some(Bit::Zero), iter.next());
    assert_eq!(Some(Bit::Zero), iter.next());
    assert_eq!(Some(Bit::Zero), iter.next());
    assert_eq!(Some(Bit::Zero), iter.next());
    assert_eq!(Some(Bit::Zero), iter.next());
    assert_eq!(Some(Bit::Zero), iter.next());
}

#[test]
fn bits64_test_into_iter() {
    let bits = Bits64::one();
    let mut iter = bits.into_iter();
    assert_eq!(Some(Bit::One), iter.next());
    assert_eq!(Some(Bit::Zero), iter.next());
    assert_eq!(Some(Bit::Zero), iter.next());
    assert_eq!(Some(Bit::Zero), iter.next());
    assert_eq!(Some(Bit::Zero), iter.next());
    assert_eq!(Some(Bit::Zero), iter.next());
    assert_eq!(Some(Bit::Zero), iter.next());
    assert_eq!(Some(Bit::Zero), iter.next());
}

#[test]
fn bits64_test_enumerate() {
    let bits = Bits64::one();
    let mut iter = bits.into_iter();
    let mut ndx = 0;
    while let Some(b) = iter.next() {
        if ndx == 0 {
            assert_eq!(Bit::One, b);
        } else {
            assert_eq!(Bit::Zero, b);
        }
        ndx += 1;
    }
    assert_eq!(ndx, 64);
}

#[test]
fn bits64_test_add() {
    let x = Bits64::from(5);
    let y = x + Bits64::from(3);
    assert_eq!(y.0, 8);
}

#[test]
fn bits64_test_sub() {
    let x = Bits64::from(5);
    let y = x - Bits64::from(3);
    assert_eq!(y.0, 2);
}

#[test]
fn bits64_test_and() {
    let x = Bits64::from(5);
    let y = x & Bits64::from(3);
    assert_eq!(y.0, 1);
}

#[test]
fn bits64_test_and_assign() {
    let mut x = Bits64::from(5);
    x &= Bits64::from(3);
    assert_eq!(x.0, 1);
}

#[test]
fn bits64_test_or() {
    let x = Bits64::from(5);
    let y = x | Bits64::from(3);
    assert_eq!(y.0, 7);
}

#[test]
fn bits64_test_or_assign() {
    let mut x = Bits64::from(5);
    x |= Bits64::from(3);
    assert_eq!(x.0, 7);
}

#[test]
fn bits64_test_xor() {
    let x = Bits64::from(5);
    let y = x ^ Bits64::from(3);
    assert_eq!(y.0, 6);
}

#[test]
fn bits64_test_xor_assign() {
    let mut x = Bits64::from(5);
    x ^= Bits64::from(3);
    assert_eq!(x.0, 6);
}

#[test]
fn bits64_test_not_assign() {
    let x = Bits64::from(1);
    let y = !x;
    assert_eq!(y.0, 0xFFFF_FFFF_FFFF_FFFE)
}

#[test]
fn bits64_test_shr() {
    let x = Bits64::from(5);
    let y = x >> 1;
    assert_eq!(y.0, 2);
}

#[test]
fn bits64_test_shl() {
    let x = Bits64::from(3);
    let y = x << 1;
    assert_eq!(y.0, 6);
}

#[test]
fn bits64_test_zero() {
    assert_eq!(Bits64::zero().0, 0);
}

#[test]
fn bits64_test_one() {
    assert_eq!(Bits64::one().0, 1);
}

#[test]
fn bits64_test_with_all_ones() {
    assert_eq!(Bits64::with_all_ones().0, u64::MAX);
}

#[test]
fn bits64_test_with_low_ones() {
    assert_eq!(Bits64::with_low_ones(2).0, 3);
}

#[test]
fn bits64_test_with_high_ones() {
    assert_eq!(Bits64::with_high_ones(63).0, 0xFFFF_FFFF_FFFF_FFFE);
}

#[test]
fn bits64_test_split_at() {
    let x = Bits64::from(56u64);
    for i in 0..65 {
        let (h, t) = x.split_at(i);
        assert_eq!(h.0 + t.0, x.0);
    }
}

#[test]
fn bits64_test_len() {
    assert_eq!(Bits64::len(), 64);
}

#[test]
fn bits64_test_flip() {
    let mut x = Bits64::from(6u64);
    x.flip(1);
    assert_eq!(x.0, 4);
    x.flip(1);
    assert_eq!(x.0, 6);
}

#[test]
fn bits64_test_rst_low_range() {
    let mut x = Bits64::from(5);
    x.rst_low_range(1);
    assert_eq!(x.0, 4);
}

#[test]
fn bits64_test_rst_high_range() {
    let mut x = Bits64::from(5);
    x.rst_high_range(62);
    assert_eq!(x.0, 1);
}

#[test]
fn bits64_test_set_low_range() {
    let mut x = Bits64::from(5);
    x.set_low_range(2);
    assert_eq!(x.0, 7);
}

#[test]
fn bits64_test_set_high_range() {
    let mut x = Bits64::from(6);
    x.set_high_range(63);
    assert_eq!(x.0, 0xFFFF_FFFF_FFFF_FFFE);
}

#[test]
fn bits64_test_with_range_ones() {
    assert_eq!(Bits64::with_range_ones(0, 0).0, 0);
    assert_eq!(Bits64::with_range_ones(2, 1).0, 4);
    assert_eq!(Bits64::with_range_ones(2, 2).0, 12);
    assert_eq!(Bits64::with_range_ones(0, 8).0, 255);
}

#[test]
fn bits64_test_with_range_zeros() {
    assert_eq!(Bits64::with_range_zeros(0, 64).0, 0);
    assert_eq!(Bits64::with_range_zeros(0, 0).0, u64::MAX);
    assert_eq!(Bits64::with_range_zeros(1, 62).0, 2u64.pow(63) + 1);
}

#[test]
fn bits64_test_combinators_combine() {
    let x = Bits64::from(56u64);
    for i in 0..65 {
        let (mut h, t) = x.split_at(i);
        assert_eq!(h.0 + t.0, x.0);
        h.combine(&t);
        assert_eq!(h, x);
    }
}

#[test]
fn bits64_conversions_round_trip() {
    let x = Bits64::from(0x5a);
    let y: u64 = x.into();
    assert_eq!(y, 0x5a);
    assert_eq!(Bits64::with_low_ones(0).0, 0);
    assert_eq!(Bits64::with_high_ones(0).0, 0);
}
