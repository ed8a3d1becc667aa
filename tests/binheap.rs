use yos::BinHeap;

#[test]
fn test_binheap_default() {
    let h = BinHeap::<u8>::default();
    assert_eq!(h.len(), 0);
    assert!(h.is_empty());
}

#[test]
fn test_binheap_new() {
    let h = BinHeap::<u8>::new();
    assert_eq!(h.len(), 0);
    assert!(h.is_empty());
}

#[test]
fn test_binheap_debug() {
    let h = BinHeap::<u8>::new();
    let s = format!("{:?}", h);
    assert!(!s.is_empty());
}

#[test]
fn test_binheap_push() {
    let mut h = BinHeap::new();
    h.push(10);
    assert_eq!(1, h.len());
}

#[test]
fn test_binheap_peek() {
    let mut h = BinHeap::new();
    let v = h.peek();
    assert_eq!(v, None);

    h.push(10);
    let v = h.peek();
    assert_eq!(v, Some(&10));
}

#[test]
fn binheap_push_sequence_peeks_maximum() {
    let mut h = BinHeap::new();
    for x in [4, 5, 8, 11, 3] {
        h.push(x);
    }
    assert_eq!(h.peek(), Some(&11));
    assert_eq!(h.pop(), Some(11));
    assert_eq!(h.peek(), Some(&8));
    assert_eq!(h.len(), 4);
}

#[test]
fn binheap_heapify_then_drain() {
    let mut h = BinHeap::from_vec(vec![1, 3, 5, 2, 4]);
    assert_eq!(5, h.len());
    for expected in [5, 4, 3, 2, 1] {
        assert_eq!(h.pop(), Some(expected));
    }
    assert_eq!(h.pop(), None);
    assert!(h.is_empty());
}

#[test]
fn binheap_drain_is_non_increasing_and_complete() {
    let values: Vec<i32> = vec![7, -3, 7, 0, 12, 5, 5, -8, 1, 9, 9, 2];
    let mut h = BinHeap::new();
    for v in values.iter() {
        h.push(*v);
    }
    let mut out = Vec::new();
    while let Some(v) = h.pop() {
        out.push(v);
    }
    let mut sorted = values.clone();
    sorted.sort();
    sorted.reverse();
    assert_eq!(out, sorted);
}

#[test]
fn binheap_heapify_matches_pushing() {
    let values: Vec<u64> = vec![9, 1, 8, 2, 7, 3, 6, 4, 5, 5, 0];
    let mut a = BinHeap::from_vec(values.clone());
    let mut b = BinHeap::new();
    for v in values.iter().rev() {
        b.push(*v);
    }
    for _ in 0..values.len() {
        assert_eq!(a.pop(), b.pop());
    }
    assert_eq!(a.pop(), None);
    assert_eq!(b.pop(), None);
}

#[test]
fn binheap_len_counts_pushes_minus_pops() {
    let mut h = BinHeap::new();
    for i in 0..10u32 {
        h.push(i);
    }
    for _ in 0..4 {
        h.pop();
    }
    assert_eq!(h.len(), 6);
    assert!(!h.is_empty());
    for _ in 0..6 {
        h.pop();
    }
    assert_eq!(h.len(), 0);
    assert!(h.is_empty());
    assert_eq!(h.pop(), None);
}

#[test]
fn binheap_reheapify_keeps_pop_order() {
    let mut h = BinHeap::new();
    for x in [3, 9, 1, 7, 7, 2, 8] {
        h.push(x);
    }
    let before: Vec<i64> = h.clone().into_vec();
    let mut again = BinHeap::from_vec(h.clone().into_vec());
    assert_eq!(again.clone().into_vec(), before);
    while let Some(v) = h.pop() {
        assert_eq!(again.pop(), Some(v));
    }
    assert_eq!(again.pop(), None);
}

#[test]
fn binheap_iter_visits_storage_order() {
    let h = BinHeap::from_vec(vec![2u8, 9, 4]);
    let stored: Vec<u8> = h.clone().into_vec();
    let mut it = h.iter();
    assert_eq!(it.len(), 3);
    let mut seen = Vec::new();
    while let Some(v) = it.next() {
        seen.push(v);
    }
    assert_eq!(seen, stored);
    assert_eq!(seen[0], 9);
    let mut owned = h.into_iter();
    assert_eq!(owned.next(), Some(9));
    assert_eq!(owned.len(), 2);
}

#[test]
fn binheap_allocation_controls_keep_values() {
    let mut h = BinHeap::with_capacity(4);
    h.push(1u16);
    h.push(6);
    h.reserve(10);
    h.reserve_exact(3);
    assert!(h.capacity() >= 5);
    h.shrink_to_fit();
    h.shrink_to(1);
    assert_eq!(h.len(), 2);
    assert_eq!(h.peek(), Some(&6));
}

#[test]
fn binheap_into_vec_through_from() {
    let mut h = BinHeap::from_vec(vec![3, 1, 4]);
    h.push(2);
    let xs: Vec<i32> = h.into();
    assert_eq!(xs.len(), 4);
    assert_eq!(xs[0], 4);
}
