use eson::Iter;

#[test]
fn test_iter() {
    let mut iter = Iter::new(vec![1, 2, 3]);
    assert_eq!(iter.peek(), Some(&1));
    assert_eq!(iter.peek(), Some(&1));
    assert_eq!(iter.next(), Some(&1));
    assert_eq!(iter.peek(), Some(&2));
    assert_eq!(iter.peek(), Some(&2));
    assert_eq!(iter.next(), Some(&2));
    assert_eq!(iter.peek(), Some(&3));
    assert_eq!(iter.peek(), Some(&3));
    assert_eq!(iter.next(), Some(&3));
    assert_eq!(iter.peek(), None);
    assert_eq!(iter.peek(), None);
    assert_eq!(iter.next(), None);
    assert_eq!(iter.peek(), None);
    assert_eq!(iter.peek(), None);
    assert_eq!(iter.next(), None);
}

#[test]
fn take_next_drains_in_order() {
    let mut iter = Iter::new(vec![10, 20, 30]);
    assert_eq!(iter.peek(), Some(&10));
    assert_eq!(iter.take_next(), Some(10));
    assert_eq!(iter.peek(), Some(&20));
    assert_eq!(iter.take_next(), Some(20));
    assert_eq!(iter.take_next(), Some(30));
    assert_eq!(iter.take_next(), None);
    assert_eq!(iter.peek(), None);
}
