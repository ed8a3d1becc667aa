use yos::bit::Bit;
use yos::bitstring::Bitstring;
use yos::bitstring_ops::{
    BitstringCombinators, BitstringConstructor, BitstringDebug, BitstringInto, BitstringOps,
    BitstringRange, BitstringShift,
};
use yos::mask::{get_u64, rst_u64, set_u64};

#[test]
fn primitive_u64_test_rst_bit() {
    let x = 3u64;
    let y = rst_u64(x, 0);
    assert_eq!(y, 2);
}

#[test]
fn primitive_u64_test_set_bit() {
    let x = 2u64;
    let y = set_u64(x, 0);
    assert_eq!(y, 3);
}

#[test]
fn primitive_u64_test_get_bit() {
    let x = 3u64;
    assert_eq!(get_u64(x, 0), 1);
    assert_eq!(get_u64(x, 1), 2);
    assert_eq!(get_u64(x, 2), 0);
}

#[test]
fn primitive_u64_test_bstr_len() {
    assert_eq!(u64::len(), 64);
}

#[test]
fn primitive_u64_test_bstr_rst() {
    let mut x = 3u64;
    x.rst(0);
    assert_eq!(x, 2);
}

#[test]
fn primitive_u64_test_bstr_set() {
    let mut x = 2u64;
    x.set(0);
    assert_eq!(x, 3);
}

#[test]
fn primitive_u64_test_bstr_get() {
    let x = 3u64;
    assert_eq!(x.get(0), Bit::One);
    assert_eq!(x.get(1), Bit::One);
    assert_eq!(x.get(2), Bit::Zero);
}

#[test]
fn primitive_u64_test_bstr_ops_and() {
    let mut x = 5u64;
    x.and(&3);
    assert_eq!(x, 1);
}

#[test]
fn primitive_u64_test_bstr_ops_or() {
    let mut x = 5u64;
    x.or(&3);
    assert_eq!(x, 7);
}

#[test]
fn primitive_u64_test_bstr_ops_xor() {
    let mut x = 5u64;
    x.xor(&3);
    assert_eq!(x, 6);
}

#[test]
fn primitive_u64_test_bstr_ops_neg() {
    let mut x = 1u64;
    x.neg();
    assert_eq!(x, 0xFFFF_FFFF_FFFF_FFFE);
}

#[test]
fn primitive_u64_test_bstr_shift_left() {
    let mut x = 3u64;
    x.shift_left(1);
    assert_eq!(x, 6);
}

#[test]
fn primitive_u64_test_bstr_shift_right() {
    let mut x = 6u64;
    x.shift_right(1);
    assert_eq!(x, 3);
}

#[test]
fn primitive_u64_test_bstr_range_rst_low() {
    let mut x = 7u64;
    x.rst_low(2);
    assert_eq!(x, 4);
}

#[test]
fn primitive_u64_test_bstr_range_rst_high() {
    let mut x = u64::MAX;
    x.rst_high(63);
    assert_eq!(x, 1);
}

#[test]
fn primitive_u64_test_bstr_range_set_low() {
    let mut x = 4u64;
    x.set_low(2);
    assert_eq!(x, 7);
}

#[test]
fn primitive_u64_test_bstr_range_set_high() {
    let mut x = 1u64;
    x.set_high(63);
    assert_eq!(x, u64::MAX);
}

#[test]
fn primitive_u64_test_bstr_debug_bdebug() {
    let mut x = 5u64;
    x.neg();
    let s = x.bdebug();
    assert_eq!(s.len(), 97);
}

#[test]
fn primitive_u64_test_bstr_constructor_zero() {
    assert_eq!(u64::zero(), 0);
}

#[test]
fn primitive_u64_test_bstr_constructor_one() {
    assert_eq!(u64::one(), 1);
}

#[test]
fn primitive_u64_test_bstr_constructor_pow2() {
    assert_eq!(u64::pow2(3), 8);
}

#[test]
fn primitive_u64_test_bstr_constructor_low_ones() {
    let x = u64::low_ones(3);
    assert_eq!(x, 7);
}

#[test]
fn primitive_u64_test_bstr_constructor_high_ones() {
    let x = u64::high_ones(63);
    assert_eq!(x, u64::MAX - 1);
}

#[test]
fn primitive_u64_test_bstr_combinators_split() {
    let x = 56u64;
    for i in 0..65 {
        let (h, t) = x.split(i);
        assert_eq!(h + t, x);
    }
}

#[test]
fn primitive_u64_test_bstr_combinators_flip() {
    let mut x = 6u64;
    x.flip(1);
    assert_eq!(x, 4);
    x.flip(1);
    assert_eq!(x, 6);
}

#[test]
fn primitive_u64_test_bstr_combinators_combine() {
    let x = 56u64;
    for i in 0..65 {
        let (mut h, t) = x.split(i);
        assert_eq!(h + t, x);
        h.combine(&t);
        assert_eq!(h, x);
    }
}

#[test]
fn primitive_u64_views() {
    let x = 0x0102_0304_0506_0708u64;
    assert_eq!(x.to_u8s(), vec![8, 7, 6, 5, 4, 3, 2, 1]);
    let bits = 5u64.to_bits();
    assert_eq!(bits.len(), 64);
    assert_eq!(bits[0], Bit::One);
    assert_eq!(bits[1], Bit::Zero);
    assert_eq!(bits[2], Bit::One);
    assert_eq!(bits[63], Bit::Zero);
    let s = 0u64.bdebug();
    assert!(s.starts_with("u64:"));
    assert!(s.ends_with("|00000000|"));
}

#[test]
fn primitive_u64_bdebug_text() {
    let s = 0x0102u64.bdebug();
    let expected = format!(
        "u64:{}258|00000000|00000000|00000000|00000000|00000000|00000000|00000001|00000010|",
        " ".repeat(17)
    );
    assert_eq!(s, expected);
    assert_eq!(u64::MAX.bdebug().len(), 97);
}
