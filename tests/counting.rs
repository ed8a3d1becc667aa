use yos::counting::CountingFilter;

fn seed() -> [u8; 32] {
    let mut s = [0u8; 32];
    for (i, b) in s.iter_mut().enumerate() {
        *b = (i as u8).wrapping_mul(91).wrapping_add(3);
    }
    s
}

#[test]
fn counting_set_check() {
    let mut filter = CountingFilter::<u8>::with_hash_count(1000, 1, &seed());

    let mut item = vec![0u8, 16];
    getrandom::getrandom(&mut item).unwrap();

    filter.set(&item);
    assert!(!filter.check(&item, 2));

    filter.set(&item);
    assert!(filter.check(&item, 2));
}

#[test]
fn counting_check_and_set_counts_visits() {
    let mut filter = CountingFilter::<u32>::with_hash_count(64, 3, &seed());
    let item = b"tally";
    assert!(!filter.check(item, 1));
    assert!(!filter.check_and_set(item, 1));
    assert!(filter.check(item, 1));
    assert!(filter.check_and_set(item, 1));
    assert!(filter.check(item, 2));
    assert!(!filter.check(item, 4));
}
