use yos::bit::Bit;
use yos::evolution::Bitstring;

#[test]
fn primitive_u64_test_blen() {
    let a = 5u64;
    assert_eq!(a.blen(), 64);
}

#[test]
fn primitive_u64_test_bor() {
    let mut a = 5u64;
    let b = 2u64;
    a.bor(&b);
    assert_eq!(a, 7);
}

#[test]
fn primitive_u64_test_band() {
    let mut a = 5u64;
    let b = 3u64;
    a.band(&b);
    assert_eq!(a, 1);
}

#[test]
fn primitive_u64_test_bneg() {
    let mut a = 5u64;
    a.bneg();
    a.bneg();
    assert_eq!(a, 5);
}

#[test]
fn primitive_u64_test_bxor() {
    let mut a = 5u8;
    let b = 3u8;
    a.bxor(&b);
    assert_eq!(a, 6);
}

#[test]
fn primitive_u64_test_blshift() {
    let mut x = 1u64;
    x.blshift(2);
    assert_eq!(x, 4);
}

#[test]
fn primitive_u64_test_bpow2() {
    assert_eq!(u64::bpow2(0), 1);
    assert_eq!(u64::bpow2(1), 2);
    assert_eq!(u64::bpow2(2), 4);
    assert_eq!(u64::bpow2(3), 8);
}

#[test]
fn primitive_u64_test_brst() {
    let mut v = 7u64;
    v.brst(1);
    assert_eq!(v, 5);
}

#[test]
fn primitive_u64_test_bset() {
    let mut v = 5u64;
    v.bset(1);
    assert_eq!(v, 7);
}

#[test]
fn primitive_u64_test_bflip() {
    let mut v = 7u64;
    v.bflip(1);
    assert_eq!(v, 5);
    v.bflip(1);
    assert_eq!(v, 7);
}

#[test]
fn primitive_u64_test_bget() {
    let v = 5u64;
    let b = v.bget(1);
    assert_eq!(b, Bit::Zero);
    let b = v.bget(2);
    assert_eq!(b, Bit::One);
    assert_eq!(v, 5);
}

#[test]
fn primitive_u64_test_brst_low() {
    let mut v = 5u64;
    v.brst_low(2);
    assert_eq!(v, 4);
}

#[test]
fn primitive_u64_test_brst_high() {
    let mut v = 5u64;
    v.brst_high(62);
    assert_eq!(v, 1);
}

#[test]
fn primitive_u64_test_bzero() {
    assert_eq!(u64::bzero(), 0);
}

#[test]
fn primitive_u64_test_bone() {
    assert_eq!(u64::bone(), 1);
}

#[test]
fn primitive_u64_test_bone_low() {
    assert_eq!(u64::bone_low(0), 0);
    assert_eq!(u64::bone_low(1), 1);
    assert_eq!(u64::bone_low(2), 3);
    assert_eq!(u64::bone_low(3), 7);
    assert_eq!(u64::bone_low(4), 15);
    assert_eq!(u64::bone_low(5), 31);
    assert_eq!(u64::bone_low(6), 63);
    assert_eq!(u64::bone_low(7), 127);
    assert_eq!(u64::bone_low(8), 255);
    assert_eq!(u64::bone_low(64), u64::MAX);
}

#[test]
fn primitive_u64_test_bone_high() {
    assert_eq!(u64::bone_high(0), 0);
    assert_eq!(u64::bone_high(63), 18446744073709551614);
    assert_eq!(u64::bone_high(64), 18446744073709551615);
}

#[test]
fn primitive_u64_test_bsplit() {
    let x = 56u64;
    for i in 0..65 {
        let (h, t) = x.bsplit(i);
        assert_eq!(h + t, x);
    }
}

#[test]
fn primitive_u64_test_bcombine() {
    let x = 56u64;
    for i in 0..65 {
        let (mut h, t) = x.bsplit(i);
        assert_eq!(h + t, x);
        h.bcombine(&t);
        assert_eq!(h, x);
    }
}
