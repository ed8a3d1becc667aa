use yos::bytes::{
    difficulty_bytes, u128_to_bytes, u16_to_bytes, u32_to_bytes, u64_to_bytes, DifficultHash,
};

#[test]
fn test_u16_to_bytes() {
    let u: u16 = 0x1234;
    let xs = u16_to_bytes(&u);
    assert_eq!(xs[0], 0x34);
    assert_eq!(xs[1], 0x12);
}

#[test]
fn test_u32_to_bytes() {
    let u: u32 = 0x12341234;
    let xs = u32_to_bytes(&u);
    assert_eq!(xs[0], 0x34);
    assert_eq!(xs[1], 0x12);
    assert_eq!(xs[2], 0x34);
    assert_eq!(xs[3], 0x12);
}

#[test]
fn test_u64_to_bytes() {
    let u: u64 = 0x1234123412341234;
    let xs = u64_to_bytes(&u);
    assert_eq!(xs[0], 0x34);
    assert_eq!(xs[1], 0x12);
    assert_eq!(xs[2], 0x34);
    assert_eq!(xs[3], 0x12);
    assert_eq!(xs[4], 0x34);
    assert_eq!(xs[5], 0x12);
    assert_eq!(xs[6], 0x34);
    assert_eq!(xs[7], 0x12);
}

#[test]
fn test_u128_to_bytes() {
    let u: u128 = 0x12345678123456781234567812345678;
    let xs = u128_to_bytes(&u);
    assert_eq!(xs[0], 0x78);
    assert_eq!(xs[1], 0x56);
    assert_eq!(xs[2], 0x34);
    assert_eq!(xs[3], 0x12);
    assert_eq!(xs[4], 0x78);
    assert_eq!(xs[5], 0x56);
    assert_eq!(xs[6], 0x34);
    assert_eq!(xs[7], 0x12);
    assert_eq!(xs[8], 0x78);
    assert_eq!(xs[9], 0x56);
    assert_eq!(xs[10], 0x34);
    assert_eq!(xs[11], 0x12);
    assert_eq!(xs[12], 0x78);
    assert_eq!(xs[13], 0x56);
    assert_eq!(xs[14], 0x34);
    assert_eq!(xs[15], 0x12);
}

#[test]
fn test_difficulty_bytes() {
    let xs: Vec<u8> = vec![
        1, 2, 3, 4, 5, 6, 7, 8, 9, 10, 11, 12, 13, 14, 15, 16, 1, 2, 3, 0, 0, 0, 0, 0, 0, 0, 0, 0,
        0, 0, 0, 0,
    ];
    let v = difficulty_bytes(xs.as_slice(), 16);
    assert_eq!((3 << 16) + (2 << 8) + 1, v);
}

#[test]
fn test_new16() {
    let xs: Vec<u8> = vec![
        1, 2, 3, 4, 5, 6, 7, 8, 9, 10, 11, 12, 13, 14, 15, 16, 1, 2, 3, 0, 0, 0, 0, 0, 0, 0, 0, 0,
        0, 0, 0, 0,
    ];
    let h = DifficultHash::new16(xs);
    assert_eq!((3 << 16) + (2 << 8) + 1, h.diff128());
}

#[test]
fn difficulty_reads_most_significant_first() {
    let mut xs = vec![0u8; 32];
    xs[31] = 0xab;
    xs[30] = 0xcd;
    assert_eq!(difficulty_bytes(&xs, 2), 0xabcd);
    assert_eq!(difficulty_bytes(&xs, 0), 0);
    let h = DifficultHash::new(xs, 3);
    assert_eq!(h.diff128(), 0xabcd00);
}
