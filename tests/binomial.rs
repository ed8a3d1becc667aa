use yos::binomial::{append, coalesce, merge, peek, Node};

#[test]
fn test_debug() {
    let n = Node::with_order(0, 0);
    let s = format!("{:?}", n);
    assert!(!s.is_empty());
}

#[test]
fn test_peek_last() {
    // build the chain of siblings
    let n3 = Node::with_order(3, 3);
    let mut n2 = Node::with_order(20, 2);
    n2.sibling = Some(Box::new(n3));

    let mut n1 = Node::with_order(1, 1);
    n1.sibling = Some(Box::new(n2));

    let mut n0 = Node::with_order(0, 0);
    n0.sibling = Some(Box::new(n1));

    let x = Some(Box::new(n0));
    let v = peek(&x).unwrap();
    assert_eq!(20, *v);
}

#[test]
fn test_merge_0_with_1() {
    let a = Node::with_order(1, 0);
    let b = Node::with_order(2, 1);

    let mut box_a = Box::new(a);
    let box_b = Box::new(b);

    merge(&mut box_a, box_b);

    assert_eq!(1, box_a.item);
    assert_eq!(0, box_a.order);

    let box_x = box_a.sibling.as_ref().unwrap();
    assert_eq!(2, box_x.item);
    assert_eq!(1, box_x.order);
}

#[test]
fn test_merge_1_with_0() {
    let a = Node::with_order(2, 1);
    let b = Node::with_order(1, 0);

    let mut box_a = Box::new(a);
    let box_b = Box::new(b);

    merge(&mut box_a, box_b);

    assert_eq!(1, box_a.item);
    assert_eq!(0, box_a.order);

    let box_x = box_a.sibling.as_ref().unwrap();
    assert_eq!(2, box_x.item);
    assert_eq!(1, box_x.order);
}

#[test]
fn test_merge_02_with_13() {
    let mut a = Node::with_order(0, 0);
    let b = Node::with_order(2, 2);
    a.sibling = Some(Box::new(b));

    let mut c = Node::with_order(1, 1);
    let d = Node::with_order(3, 3);
    c.sibling = Some(Box::new(d));

    let mut box_a = Box::new(a);
    let box_c = Box::new(c);
    merge(&mut box_a, box_c);

    assert_eq!(0, box_a.item);
    assert_eq!(0, box_a.order);

    let box_1 = box_a.sibling.as_ref().unwrap();
    assert_eq!(1, box_1.item);
    assert_eq!(1, box_1.order);

    let box_2 = box_1.sibling.as_ref().unwrap();
    assert_eq!(2, box_2.item);
    assert_eq!(2, box_2.order);

    let box_3 = box_2.sibling.as_ref().unwrap();
    assert_eq!(3, box_3.item);
    assert_eq!(3, box_3.order);

    assert!(box_3.sibling.is_none());
}

#[test]
fn test_coalesce_undercurrent() {
    let c = Node::with_order(15, 3);

    let mut b = Node::with_order(10, 0);
    b.sibling = Some(Box::new(c));

    let mut a = Node::with_order(20, 0);
    a.sibling = Some(Box::new(b));

    let mut box_a = Box::new(a);
    coalesce(&mut box_a);

    assert_eq!(20, box_a.item);
    assert_eq!(1, box_a.order);

    let box_x = box_a.sibling.as_ref().unwrap();
    assert_eq!(15, box_x.item);
    assert_eq!(3, box_x.order);
}

#[test]
fn test_coalesce_undersibling() {
    let c = Node::with_order(15, 3);

    let mut b = Node::with_order(20, 0);
    b.sibling = Some(Box::new(c));

    let mut a = Node::with_order(10, 0);
    a.sibling = Some(Box::new(b));

    let mut box_a = Box::new(a);
    coalesce(&mut box_a);

    assert_eq!(20, box_a.item);
    assert_eq!(1, box_a.order);

    let box_x = box_a.sibling.as_ref().unwrap();
    assert_eq!(15, box_x.item);
    assert_eq!(3, box_x.order);
}

#[test]
fn test_coalesce_movenext() {
    let n7 = Node::with_order(70, 4);

    let mut n6 = Node::with_order(60, 3);
    n6.set_sibling(n7);

    let mut n5 = Node::with_order(50, 2);
    n5.set_sibling(n6);

    let mut n4 = Node::with_order(40, 2);
    n4.set_sibling(n5);

    let mut n3 = Node::with_order(30, 2);
    n3.set_sibling(n4);

    let mut n2 = Node::with_order(20, 1);
    n2.set_sibling(n3);

    let mut n1 = Node::with_order(10, 0);
    n1.set_sibling(n2);

    let mut bx = Box::new(n1);
    coalesce(&mut bx);

    assert_eq!(bx.item, 10);
    assert_eq!(bx.order, 0);

    let r2 = bx.sibling.as_ref().unwrap();
    assert_eq!(r2.item, 20);
    assert_eq!(r2.order, 1);

    let r3 = r2.sibling.as_ref().unwrap();
    assert_eq!(r3.item, 30);
    assert_eq!(r3.order, 2);

    let r4 = r3.sibling.as_ref().unwrap();
    assert_eq!(r4.item, 70);
    assert_eq!(r4.order, 5);
}

#[test]
fn test_append() {
    let a = Node::with_order(10, 1);
    let b = Node::with_order(20, 1);

    let mut bxa = Box::new(a);
    let bxb = Box::new(b);

    append(&mut bxa, Some(bxb));

    assert_eq!(bxa.item, 20);
    assert_eq!(bxa.order, 2);

    let bxx = bxa.child.as_ref().unwrap();
    assert_eq!(bxx.item, 10);
    assert_eq!(bxx.order, 1);
}

#[test]
fn test_append_1() {
    let mut a = Node::with_order(10, 1);
    let a1 = Node::with_order(9, 0);
    a.set_child(a1);

    let mut b = Node::with_order(20, 1);
    let b1 = Node::with_order(19, 0);
    b.set_child(b1);

    let mut bxa = Box::new(a);
    let bxb = Box::new(b);

    append(&mut bxa, Some(bxb));

    assert_eq!(bxa.item, 20);
    assert_eq!(bxa.order, 2);

    let bxx = bxa.child.as_ref().unwrap();
    assert_eq!(bxx.item, 10);
    assert_eq!(bxx.order, 1);

    let bxy = bxx.sibling.as_ref().unwrap();
    assert_eq!(bxy.item, 19);
    assert_eq!(bxy.order, 0);
}

#[test]
fn binomial_peek_first_of_equal_and_empty() {
    let none: Option<Box<Node<u32>>> = None;
    assert_eq!(peek(&none), None);
    let mut a = Node::with_order(7u32, 0);
    a.set_sibling(Node::with_order(7, 1));
    let root = Some(Box::new(a));
    assert_eq!(peek(&root), Some(&7));
}
