use yos::{BinHeap, BinaryHeap};

#[test]
fn main_new_pass() {
    let h = BinaryHeap::<u8>::new();
    assert_eq!(h.len(), 0);
    assert!(h.is_empty());
}

#[test]
fn with_capacity_pass() {
    let h = BinaryHeap::<u8>::with_capacity(10);
    assert_eq!(h.capacity(), 10);
}

#[test]
fn default_pass() {
    let h = BinaryHeap::<u8>::default();
    assert_eq!(h.len(), 0);
    assert!(h.is_empty());
}

#[test]
fn debug_pass() {
    let h = BinaryHeap::<u8>::new();
    let s = format!("{:?}", h);
    assert!(!s.is_empty());
}

#[test]
fn push_pass() {
    let mut h = BinaryHeap::<u8>::new();
    h.push(4);
    h.push(2);
    h.push(3);
    h.push(5);
    assert_eq!(h.len(), 4);
    assert!(!h.is_empty());
    let v = h.peek().unwrap();
    assert_eq!(*v, 5);
}

#[test]
fn pop_pass() {
    let mut h = BinaryHeap::<u8>::new();
    h.push(4);
    h.push(2);
    h.push(3);
    h.push(5);
    let v = h.pop().unwrap();
    assert_eq!(5, v);
    let v = h.pop().unwrap();
    assert_eq!(4, v);
    let v = h.pop().unwrap();
    assert_eq!(3, v);
    let v = h.pop().unwrap();
    assert_eq!(2, v);
    let v = h.pop();
    assert_eq!(None, v);
}

#[test]
fn rebuild_pass() {
    let mut h = BinaryHeap::from(vec![1, 3, 5, 2, 4]);
    assert_eq!(5, h.len());
    let v = h.pop().unwrap();
    assert_eq!(5, v);
    let v = h.pop().unwrap();
    assert_eq!(4, v);
    let v = h.pop().unwrap();
    assert_eq!(3, v);
    let v = h.pop().unwrap();
    assert_eq!(2, v);
    let v = h.pop().unwrap();
    assert_eq!(1, v);
    let v = h.pop();
    assert_eq!(None, v);
}

#[test]
fn convert_from_vec_to_vec() {
    let mut h = BinaryHeap::from(vec![3, 1, 4]);
    h.push(2);
    let xs: Vec<i32> = h.into();
    assert_eq!(xs.len(), 4);

    let mut h = BinHeap::from(vec![3, 1, 4]);
    h.push(2);
    let xs: Vec<i32> = h.into();
    assert_eq!(xs.len(), 4);
}

#[test]
fn convert_from_iterator() {
    let xs = vec![3, 1, 4];
    let mut h = BinaryHeap::from_vec(xs.into_iter().collect());
    h.push(2);
    let xs: Vec<i32> = h.into();
    assert_eq!(xs.len(), 4);

    let xs = vec![3, 1, 4];
    let mut h = BinHeap::from_vec(xs.into_iter().collect());
    h.push(2);
    let xs: Vec<i32> = h.into();
    assert_eq!(xs.len(), 4);
}

#[test]
fn binary_heap_equal_values_drain() {
    let mut h = BinaryHeap::from_vec(vec![2, 2, 2, 1, 3, 3]);
    let mut out = Vec::new();
    while let Some(v) = h.pop() {
        out.push(v);
    }
    assert_eq!(out, vec![3, 3, 2, 2, 2, 1]);
}

#[test]
fn binary_heap_reheapify_keeps_layout() {
    let mut h = BinaryHeap::new();
    for x in [5u32, 1, 9, 9, 4, 0, 6] {
        h.push(x);
    }
    let stored = h.clone().into_vec();
    let again = BinaryHeap::from_vec(stored.clone());
    assert_eq!(again.into_vec(), stored);
    h.reserve_exact(2);
    h.reserve(2);
    h.shrink_to_fit();
    assert_eq!(h.len(), 7);
    let mut it = h.iter();
    assert_eq!(it.next(), Some(9));
}
