use yos::bit::Bit;
use yos::bitstring::Bitstring;
use yos::bitstring_ops::{
    BitstringCombinators, BitstringConstructor, BitstringDebug, BitstringInto, BitstringOps,
    BitstringRange, BitstringShift,
};
use yos::mask::{get_u8, rst_u8, set_u8};

#[test]
fn primitive_u8_test_rst_bit() {
    let x = 3u8;
    let y = rst_u8(x, 0);
    assert_eq!(y, 2);
}

#[test]
fn primitive_u8_test_set_bit() {
    let x = 2u8;
    let y = set_u8(x, 0);
    assert_eq!(y, 3);
}

#[test]
fn primitive_u8_test_get_bit() {
    let x = 3u8;
    assert_eq!(get_u8(x, 0), 1);
    assert_eq!(get_u8(x, 1), 2);
    assert_eq!(get_u8(x, 2), 0);
}

#[test]
fn primitive_u8_test_bstr_len() {
    assert_eq!(u8::len(), 8);
}

#[test]
fn primitive_u8_test_bstr_rst() {
    let mut x = 3u8;
    x.rst(0);
    assert_eq!(x, 2);
}

#[test]
fn primitive_u8_test_bstr_set() {
    let mut x = 2u8;
    x.set(0);
    assert_eq!(x, 3);
}

#[test]
fn primitive_u8_test_bstr_get() {
    let x = 3u8;
    assert_eq!(x.get(0), Bit::One);
    assert_eq!(x.get(1), Bit::One);
    assert_eq!(x.get(2), Bit::Zero);
}

#[test]
fn primitive_u8_test_bstr_ops_and() {
    let mut x = 5u8;
    x.and(&3);
    assert_eq!(x, 1);
}

#[test]
fn primitive_u8_test_bstr_ops_or() {
    let mut x = 5u8;
    x.or(&3);
    assert_eq!(x, 7);
}

#[test]
fn primitive_u8_test_bstr_ops_xor() {
    let mut x = 5u8;
    x.xor(&3);
    assert_eq!(x, 6);
}

#[test]
fn primitive_u8_test_bstr_ops_neg() {
    let mut x = 1u8;
    x.neg();
    assert_eq!(x, 254);
}

#[test]
fn primitive_u8_test_bstr_shift_left() {
    let mut x = 3u8;
    x.shift_left(1);
    assert_eq!(x, 6);
}

#[test]
fn primitive_u8_test_bstr_shift_right() {
    let mut x = 6u8;
    x.shift_right(1);
    assert_eq!(x, 3);
}

#[test]
fn primitive_u8_test_bstr_range_rst_low() {
    let mut x = 7u8;
    x.rst_low(2);
    assert_eq!(x, 4);
}

#[test]
fn primitive_u8_test_bstr_range_rst_high() {
    let mut x = u8::MAX;
    x.rst_high(7);
    assert_eq!(x, 1);
}

#[test]
fn primitive_u8_test_bstr_range_set_low() {
    let mut x = 4u8;
    x.set_low(2);
    assert_eq!(x, 7);
}

#[test]
fn primitive_u8_test_bstr_range_set_high() {
    let mut x = 1u8;
    x.set_high(7);
    assert_eq!(x, u8::MAX);
}

#[test]
fn primitive_u8_test_bstr_debug_bdebug() {
    let mut x = 5u8;
    x.neg();
    let s = x.bdebug();
    assert_eq!(s.len(), 16);
}

#[test]
fn primitive_u8_test_bstr_constructor_zero() {
    assert_eq!(u8::zero(), 0);
}

#[test]
fn primitive_u8_test_bstr_constructor_one() {
    assert_eq!(u8::one(), 1);
}

#[test]
fn primitive_u8_test_bstr_constructor_pow2() {
    assert_eq!(u8::pow2(3), 8);
}

#[test]
fn primitive_u8_test_bstr_constructor_low_ones() {
    let x = u8::low_ones(3);
    assert_eq!(x, 7);
}

#[test]
fn primitive_u8_test_bstr_constructor_high_ones() {
    let x = u8::high_ones(7);
    assert_eq!(x, 254);
}

#[test]
fn primitive_u8_test_bstr_combinators_split() {
    let x = 56u8;
    for i in 0..9 {
        let (h, t) = x.split(i);
        assert_eq!(h + t, x);
    }
}

#[test]
fn primitive_u8_test_bstr_combinators_flip() {
    let mut x = 6u8;
    x.flip(1);
    assert_eq!(x, 4);
    x.flip(1);
    assert_eq!(x, 6);
}

#[test]
fn primitive_u8_test_bstr_combinators_combine() {
    let x = 56u8;
    for i in 0..9 {
        let (mut h, t) = x.split(i);
        assert_eq!(h + t, x);
        h.combine(&t);
        assert_eq!(h, x);
    }
}

#[test]
fn test_bstr_into_bits() {
    let x = 5u8;
    let bits = x.to_bits();
    assert_eq!(bits.len(), 8);
    assert_eq!(bits[0], Bit::One);
    assert_eq!(bits[1], Bit::Zero);
    assert_eq!(bits[2], Bit::One);
    assert_eq!(bits[3], Bit::Zero)
}

#[test]
fn primitive_u8_to_u8s_is_the_value() {
    assert_eq!(0xa5u8.to_u8s(), vec![0xa5]);
}

#[test]
fn primitive_u8_bdebug_text() {
    let mut x = 5u8;
    x.neg();
    assert_eq!(x.bdebug(), "u8:250|11111010|");
    assert_eq!(7u8.bdebug(), "u8:  7|00000111|");
}
