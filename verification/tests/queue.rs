use linked_lists::queue::List;

#[test]
fn fifth_basics() {
    let mut list = List::new();
    assert_eq!(list.pop(), None);
    list.push(0);
    assert_eq!(list.pop(), Some(0));
    list.push(1);
    list.push(2);
    list.push(3);
    assert_eq!(list.pop(), Some(1));
    assert_eq!(list.pop(), Some(2));
    assert_eq!(list.pop(), Some(3));
    assert_eq!(list.pop(), None);
}

#[test]
fn queue_fifo_drain() {
    let mut list = List::new();
    for i in 1..=5 {
        list.push(i);
    }
    for i in 1..=5 {
        assert_eq!(list.pop(), Some(i));
    }
    assert_eq!(list.pop(), None);
}

#[test]
fn queue_tail_reset() {
    // Popping the element that is also the back of the queue must leave no
    // trace: the next push behaves as on a freshly constructed queue.
    let mut list = List::new();
    list.push(1);
    assert_eq!(list.pop(), Some(1));
    list.push(2);
    list.push(3);
    assert_eq!(list.pop(), Some(2));
    assert_eq!(list.pop(), Some(3));
    assert_eq!(list.pop(), None);
    list.push(4);
    assert_eq!(list.pop(), Some(4));
    assert_eq!(list.pop(), None);
}

#[test]
fn queue_empty_on_empty() {
    let mut list: List<u8> = List::new();
    assert_eq!(list.pop(), None);
    assert_eq!(list.pop(), None);
}

#[test]
fn queue_stress() {
    let mut list: List<u32> = List::new();
    for i in 0..10_000 {
        list.push(i);
    }
    for i in 0..10_000 {
        assert_eq!(list.pop(), Some(i));
    }
    assert_eq!(list.pop(), None);

    let mut list: List<u32> = List::new();
    for i in 0..10_000 {
        list.push(i);
    }
    list.clear();
    assert_eq!(list.pop(), None);
}
