use yos::{
    bheap_child_ndx, bheap_is_root, bheap_parent_ndx, heap_child_ndx, heap_is_root,
    heap_parent_ndx, Hole, MemCursor,
};

#[test]
fn hole_new_pass() {
    let xs = vec![1, 2, 3, 4, 5];
    let h = Hole::new(xs, 4);
    let xs = h.release();
    assert_eq!(vec![1, 2, 3, 4, 5], xs);
}

#[test]
fn hole_move_to_pass() {
    let xs = vec![1, 2, 3, 4, 5];
    let mut h = Hole::new(xs, 4);
    h.move_to(1);
    let xs = h.release();
    assert_eq!(vec![1, 5, 3, 4, 2], xs);
}

#[test]
fn hole_new() {
    let xs = vec![1, 2, 3, 4, 5];
    let ys = vec![1, 2, 3, 4, 5];
    let h = Hole::new(ys, 4);
    let ys = h.release();
    assert_eq!(xs, ys);
}

#[test]
fn memcursor_new_pass() {
    let xs = vec![1, 2, 3, 4, 5];
    let mc = MemCursor::new(xs, 4);
    let xs = mc.release();
    assert_eq!(vec![1, 2, 3, 4, 5], xs);
}

#[test]
fn memcursor_move_to_pass() {
    let xs = vec![1, 2, 3, 4, 5];
    let mut mc = MemCursor::new(xs, 4);
    mc.move_to(1);
    let xs = mc.release();
    assert_eq!(vec![1, 5, 3, 4, 2], xs);
}

#[test]
fn pos_pass() {
    let xs = vec![1, 2, 3, 4, 5];
    let mut mc = MemCursor::new(xs, 4);
    mc.move_to(1);
    assert_eq!(1, mc.pos());
    let xs = mc.release();
    assert_eq!(vec![1, 5, 3, 4, 2], xs);
}

#[test]
fn pos_element() {
    let xs = vec![1, 2, 3, 4, 5];
    let mut mc = MemCursor::new(xs, 4);
    mc.move_to(1);
    assert_eq!(5, *mc.element());
    let xs = mc.release();
    assert_eq!(vec![1, 5, 3, 4, 2], xs);
}

#[test]
fn pos_get() {
    let xs = vec![1, 2, 3, 4, 5];
    let mut mc = MemCursor::new(xs, 4);
    mc.move_to(1);
    assert_eq!(2, *mc.get(4));
    assert_eq!(5, mc.len());
    let xs = mc.release();
    assert_eq!(vec![1, 5, 3, 4, 2], xs);
}

#[test]
fn cursor_tour_of_several_steps() {
    let xs = vec![10, 20, 30, 40, 50, 60, 70];
    let mut mc = MemCursor::new(xs, 0);
    mc.move_to(2);
    mc.move_to(6);
    assert_eq!(6, mc.pos());
    assert_eq!(10, *mc.element());
    let xs = mc.release();
    assert_eq!(vec![30, 20, 70, 40, 50, 60, 10], xs);
}

#[test]
fn test_heap_parent_ndx_root() {
    let p = heap_parent_ndx(0, 2);
    assert_eq!(p, 0);
}

#[test]
fn test_bheap_parent_ndx_child() {
    assert_eq!(bheap_parent_ndx(1), 0);
    assert_eq!(bheap_parent_ndx(2), 0);
    assert_eq!(bheap_parent_ndx(3), 1);
    assert_eq!(bheap_parent_ndx(4), 1);
    assert_eq!(bheap_parent_ndx(5), 2);
    assert_eq!(bheap_parent_ndx(6), 2);
}

#[test]
fn test_bheap_child_ndx() {
    let c = bheap_child_ndx(0, 0);
    assert_eq!(1, c);

    let c = bheap_child_ndx(0, 1);
    assert_eq!(2, c);

    let c = bheap_child_ndx(1, 0);
    assert_eq!(3, c);

    let c = bheap_child_ndx(1, 1);
    assert_eq!(4, c);

    let c = bheap_child_ndx(2, 0);
    assert_eq!(5, c);

    let c = bheap_child_ndx(2, 1);
    assert_eq!(6, c);
}

#[test]
fn test_bheap_is_root() {
    assert!(bheap_is_root(0));
    assert!(!bheap_is_root(1));
}

#[test]
fn ternary_heap_indices() {
    assert_eq!(heap_parent_ndx(7, 3), 2);
    assert_eq!(heap_child_ndx(2, 0, 3), 7);
    assert!(heap_is_root(0));
    assert!(!heap_is_root(3));
}
