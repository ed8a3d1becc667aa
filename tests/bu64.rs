use yos::bit::Bit;
use yos::bitstring::Bitstring;
use yos::bu64::Bu64;
use yos::mask::{get_u64, rst_u64, set_u64};

#[test]
fn bu64_test_rst() {
    let y = rst_u64(3, 0);
    assert_eq!(y, 2);
    let mut bstr = Bu64::from(5);
    bstr.rst(2);
    assert_eq!(bstr.0, 1);
}

#[test]
fn bu64_test_set() {
    let y = set_u64(2, 0);
    assert_eq!(y, 3);
    let mut bstr = Bu64::from(5);
    bstr.set(1);
    assert_eq!(bstr.0, 7);
}

#[test]
fn bu64_test_get() {
    let x = 3u64;
    assert_eq!(get_u64(x, 0), 1);
    assert_eq!(get_u64(x, 1), 2);
    assert_eq!(get_u64(x, 2), 0);
    let bstr = Bu64::from(5);
    assert_eq!(bstr.get(0), Bit::One);
    assert_eq!(bstr.get(1), Bit::Zero);
    assert_eq!(bstr.get(2), Bit::One);
}

#[test]
fn prop_and() {
    let x = Bu64::from(5);
    let y = x & Bu64::from(3);
    assert_eq!(y.0, 1);
}

#[test]
fn prop_and_assign() {
    let mut x = Bu64::from(5);
    x &= Bu64::from(3);
    assert_eq!(x.0, 1);
}

#[test]
fn prop_or() {
    let x = Bu64::from(5);
    let y = x | Bu64::from(3);
    assert_eq!(y.0, 7);
}

#[test]
fn prop_or_assign() {
    let mut x = Bu64::from(5);
    x |= Bu64::from(3);
    assert_eq!(x.0, 7);
}

#[test]
fn prop_xor() {
    let x = Bu64::from(5);
    let y = x ^ Bu64::from(3);
    assert_eq!(y.0, 6);
}

#[test]
fn prop_xor_assign() {
    let mut x = Bu64::from(5);
    x ^= Bu64::from(3);
    assert_eq!(x.0, 6);
}

#[test]
fn prop_not_assign() {
    let x = Bu64::from(1);
    let y = !x;
    assert_eq!(y.0, 0xFFFF_FFFF_FFFF_FFFE)
}

#[test]
fn prop_shr() {
    let x = Bu64::from(5);
    let y = x >> 1;
    assert_eq!(y.0, 2);
}

#[test]
fn prop_shl() {
    let x = Bu64::from(3);
    let y = x << 1;
    assert_eq!(y.0, 6);
}

#[test]
fn prop_shl_assign() {
    let x = Bu64::from(3);
    let y = x << 1;
    assert_eq!(y.0, 6);
}

#[test]
fn bu64_test_zero() {
    assert_eq!(Bu64::from(0).0, 0);
    assert_eq!(Bu64::zero().0, 0);
}

#[test]
fn bu64_test_one() {
    assert_eq!(Bu64::from(1).0, 1);
    assert_eq!(Bu64::one().0, 1);
}

#[test]
fn bu64_test_pow2() {
    assert_eq!(Bu64::pow2(2).0, 4);
}

#[test]
fn bu64_test_low_ones() {
    assert_eq!(Bu64::low_ones(2).0, 3);
}

#[test]
fn bu64_test_high_ones() {
    assert_eq!(Bu64::high_ones(63).0, 0xFFFF_FFFF_FFFF_FFFE);
}

#[test]
fn bu64_test_len() {
    assert_eq!(Bu64::len(), 64);
}

#[test]
fn bu64_test_rst_low() {
    let mut x = Bu64::from(5);
    x.rst_low(1);
    assert_eq!(x.0, 4);
}

#[test]
fn bu64_test_rst_high() {
    let mut x = Bu64::from(5);
    x.rst_high(62);
    assert_eq!(x.0, 1);
}

#[test]
fn bu64_test_set_low() {
    let mut x = Bu64::from(5);
    x.set_low(2);
    assert_eq!(x.0, 7);
}

#[test]
fn bu64_test_set_high() {
    let mut x = Bu64::from(6);
    x.set_high(63);
    assert_eq!(x.0, 0xFFFF_FFFF_FFFF_FFFE);
}

#[test]
fn bu64_test_bstr_combinators_split() {
    let x = Bu64::from(56u64);
    for i in 0..65 {
        let (h, t) = x.split(i);
        assert_eq!(h.0 + t.0, x.0);
    }
}

#[test]
fn bu64_test_bstr_combinators_flip() {
    let mut x = Bu64::from(6u64);
    x.flip(1);
    assert_eq!(x.0, 4);
    x.flip(1);
    assert_eq!(x.0, 6);
}

#[test]
fn bu64_test_bstr_combinators_combine() {
    let x = Bu64::from(56u64);
    for i in 0..65 {
        let (mut h, t) = x.split(i);
        assert_eq!(h.0 + t.0, x.0);
        h.combine(&t);
        assert_eq!(h, x);
    }
}

#[test]
fn bu64_ranges() {
    assert_eq!(Bu64::range_ones(4, 3).0, 0b111_0000);
    assert_eq!(Bu64::range_zeros(0, 64).0, 0);
    assert_eq!(Bu64::range_zeros(1, 62).0, 0x8000_0000_0000_0001);
    assert_eq!(Bu64::low_ones(64).0, u64::MAX);
    let v: u64 = Bu64::from(42).into();
    assert_eq!(v, 42);
}
