use yos::bit::Bit;
use yos::evolution::Bitstring;

#[test]
fn primitive_u8_test_blen() {
    let a = 5u8;
    assert_eq!(a.blen(), 8);
}

#[test]
fn primitive_u8_test_bor() {
    let mut a = 5u8;
    let b = 2u8;
    a.bor(&b);
    assert_eq!(a, 7);
}

#[test]
fn primitive_u8_test_band() {
    let mut a = 5u8;
    let b = 3u8;
    a.band(&b);
    assert_eq!(a, 1);
}

#[test]
fn primitive_u8_test_bneg() {
    let mut a = 5u8;
    a.bneg();
    a.bneg();
    assert_eq!(a, 5);
}

#[test]
fn primitive_u8_test_bxor() {
    let mut a = 5u8;
    let b = 3u8;
    a.bxor(&b);
    assert_eq!(a, 6);
}

#[test]
fn primitive_u8_test_blshift() {
    let mut x = 1u8;
    x.blshift(2);
    assert_eq!(x, 4);
}

#[test]
fn primitive_u8_test_bpow2() {
    assert_eq!(u8::bpow2(0), 1);
    assert_eq!(u8::bpow2(1), 2);
    assert_eq!(u8::bpow2(2), 4);
    assert_eq!(u8::bpow2(3), 8);
}

#[test]
fn primitive_u8_test_brst() {
    let mut v = 7u8;
    v.brst(1);
    assert_eq!(v, 5);
}

#[test]
fn primitive_u8_test_bset() {
    let mut v = 5u8;
    v.bset(1);
    assert_eq!(v, 7);
}

#[test]
fn primitive_u8_test_bflip() {
    let mut v = 7u8;
    v.bflip(1);
    assert_eq!(v, 5);
    v.bflip(1);
    assert_eq!(v, 7);
}

#[test]
fn primitive_u8_test_bget() {
    let v = 5u8;
    let b = v.bget(1);
    assert_eq!(b, Bit::Zero);
    let b = v.bget(2);
    assert_eq!(b, Bit::One);
    assert_eq!(v, 5);
}

#[test]
fn primitive_u8_test_brst_low() {
    let mut v = 5u8;
    v.brst_low(2);
    assert_eq!(v, 4);
}

#[test]
fn primitive_u8_test_brst_high() {
    let mut v = 5u8;
    v.brst_high(6);
    assert_eq!(v, 1);
}

#[test]
fn primitive_u8_test_bzero() {
    assert_eq!(u8::bzero(), 0);
}

#[test]
fn primitive_u8_test_bone() {
    assert_eq!(u8::bone(), 1);
}

#[test]
fn primitive_u8_test_bone_low() {
    assert_eq!(u8::bone_low(0), 0);
    assert_eq!(u8::bone_low(1), 1);
    assert_eq!(u8::bone_low(2), 3);
    assert_eq!(u8::bone_low(3), 7);
    assert_eq!(u8::bone_low(4), 15);
    assert_eq!(u8::bone_low(5), 31);
    assert_eq!(u8::bone_low(6), 63);
    assert_eq!(u8::bone_low(7), 127);
    assert_eq!(u8::bone_low(8), 255);
}

#[test]
fn primitive_u8_test_bone_high() {
    assert_eq!(u8::bone_high(0), 0);
    assert_eq!(u8::bone_high(8), 255);
}

#[test]
fn primitive_u8_test_bsplit() {
    let x = 56u8;
    for i in 0..9 {
        let (h, t) = x.bsplit(i);
        assert_eq!(h + t, x);
    }
}

#[test]
fn primitive_u8_test_bcombine() {
    let x = 56u8;
    for i in 0..9 {
        let (mut h, t) = x.bsplit(i);
        assert_eq!(h + t, x);
        h.bcombine(&t);
        assert_eq!(h, x);
    }
}
