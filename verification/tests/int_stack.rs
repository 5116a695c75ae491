use linked_lists::int_stack::List;

#[test]
fn first_basics() {
    let mut list = List::new();
    assert_eq!(list.pop(), None);

    list.push(1);
    list.push(2);
    list.push(3);
    assert_eq!(list.pop(), Some(3));
    assert_eq!(list.pop(), Some(2));

    list.push(4);
    list.push(5);
    assert_eq!(list.pop(), Some(5));
    assert_eq!(list.pop(), Some(4));
    assert_eq!(list.pop(), Some(1));
    assert_eq!(list.pop(), None);
}

#[test]
fn int_stack_lifo_drain() {
    let mut list = List::new();
    for i in 1..=5 {
        list.push(i);
    }
    for i in (1..=5).rev() {
        assert_eq!(list.pop(), Some(i));
    }
    assert_eq!(list.pop(), None);
}

#[test]
fn int_stack_empty_on_empty() {
    let mut list = List::new();
    assert_eq!(list.pop(), None);
    assert_eq!(list.pop(), None);
}

#[test]
fn int_stack_stress() {
    let mut list = List::new();
    for i in 0..10_000 {
        list.push(i);
    }
    for i in (0..10_000).rev() {
        assert_eq!(list.pop(), Some(i));
    }
    assert_eq!(list.pop(), None);

    let mut list = List::new();
    for i in 0..10_000 {
        list.push(i);
    }
    list.clear();
    assert_eq!(list.pop(), None);
}
