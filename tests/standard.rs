use yos::evolution::{Bitstring, BitstringDebug, Evolution, Standard};

#[test]
fn standard_test_mutate() {
    let mut v = 5u8;
    Standard::mutate(&mut v, 0);
    assert_eq!(v, 4);
}

#[test]
fn standard_test_crossover() {
    let x = 5u8;
    let (mut xl, mut xh) = x.bsplit(4);
    Standard::crossover(&mut xl, &mut xh, 4);
    assert_eq!(xl + xh, x);
}

#[test]
fn standard_crossover_swaps_tails() {
    let mut a = 0b1010_1010u8;
    let mut b = 0b0101_0101u8;
    Standard::crossover(&mut a, &mut b, 4);
    assert_eq!(a, 0b0101_1010);
    assert_eq!(b, 0b1010_0101);

    let mut c = u64::MAX;
    let mut d = 0u64;
    Standard::crossover(&mut c, &mut d, 60);
    assert_eq!(c, (1u64 << 60) - 1);
    assert_eq!(d, !((1u64 << 60) - 1));
    Standard::mutate(&mut d, 63);
    assert_eq!(d, 0x7000_0000_0000_0000);
}

#[test]
fn genome_rendering_lengths() {
    assert_eq!(200u8.bdebug().len(), 16);
    assert_eq!(7u64.bdebug().len(), 97);
    assert_eq!(0x0102u64.bueights()[1], 1);
    assert_eq!(9u8.bueights(), vec![9]);
}
