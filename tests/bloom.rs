use yos::bloom::{BloomFilter, Filter};
use yos::k2hasher::K2Hasher;

fn seed() -> [u8; 32] {
    let mut s = [0u8; 32];
    for (i, b) in s.iter_mut().enumerate() {
        *b = (i as u8).wrapping_mul(37).wrapping_add(11);
    }
    s
}

#[test]
fn test_set_check() {
    let mut b = BloomFilter::with_hash_count(10, 7, &seed());
    let mut item = vec![0u8, 16];
    getrandom::getrandom(&mut item).unwrap();
    b.set(&item);
    assert!(b.check(&item));
}

#[test]
fn filter_set_check() {
    let mut filter = Filter::with_hash_count(1000, 5, &seed());
    let item = b"some item".to_vec();
    assert!(!filter.check(&item));
    filter.set(&item);
    assert!(filter.check(&item));
    assert!(filter.check_and_set(&item));
    assert!(!filter.check_and_set(b"another"));
    assert!(filter.check(b"another"));
}

#[test]
fn k2hasher_indexes_follow_double_hashing() {
    let h = K2Hasher::with_seed(&seed());
    let item = b"abc";
    let h0 = h.first_hash(item);
    let h1 = h.second_hash(item);
    let mut it = h.iter(item);
    assert_eq!(it.next(), h0 as usize);
    assert_eq!(it.next(), h1 as usize);
    let expect = ((h0 as u128).wrapping_add(2u128.wrapping_mul(h1 as u128)) as u64
        % 0xffff_ffff_ffff_ffc5) as usize;
    assert_eq!(it.next(), expect);
    let offs = h.offsets(item, 4, 64);
    assert_eq!(offs.len(), 4);
    assert_eq!(offs[0], (h0 % 64) as usize);
    assert_ne!(h.first_hash(b"abc"), h.first_hash(b"abd"));
}
