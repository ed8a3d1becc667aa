use yos::unit::{One, UCounter};

fn count_to<C: UCounter>(mut c: C) -> bool {
    c.set_one();
    c.is_one()
}

#[test]
fn one_of_each_integer() {
    assert_eq!(<u8 as One>::one(), 1);
    assert_eq!(<i64 as One>::one(), 1);
    assert_eq!(<u128 as One>::one(), 1);
    assert!(<usize as One>::one().is_one());
    assert!(!0i32.is_one());
    let mut x = 42i16;
    x.set_one();
    assert_eq!(x, 1);
    assert!(count_to(9u32));
}
