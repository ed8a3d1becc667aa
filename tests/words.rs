use yos::bits64::Bits64;
use yos::bits8::Bits8;
use yos::bu64::Bu64;
use yos::bu8::Bu8;

#[test]
fn bu64_bytes_round_trip() {
    let x = Bu64::from(0x0102_0304_0506_0708u64);
    let ys = x.to_bytes();
    assert_eq!(ys, vec![8, 7, 6, 5, 4, 3, 2, 1]);
    assert_eq!(Bu64::from_bytes(&ys), x);
    assert_eq!(Bu64::from_bytes(&[0xff, 0, 0, 0, 0, 0, 0, 0x80, 9]).0, 0x8000_0000_0000_00ff);
}

#[test]
fn bits64_bytes_round_trip() {
    let x = Bits64::from(u64::MAX - 5);
    assert_eq!(Bits64::from_bytes(&x.to_bytes()), x);
}

#[test]
fn byte_wide_strings_as_bytes() {
    assert_eq!(Bu8::from(7).to_bytes(), vec![7]);
    assert_eq!(Bits8::from_bytes(&[42, 1]).0, 42);
    assert_eq!(Bu8::from_bytes(&[200]).0, 200);
    assert_eq!(Bits8::from(3).to_bytes(), vec![3]);
}
