use linked_lists::deque::List;

#[test]
fn fourth_basics() {
    let mut list = List::new();
    assert_eq!(list.pop_front(), None);
    list.push_front(1);
    list.push_front(2);
    list.push_front(3);
    assert_eq!(list.pop_front(), Some(3));
    list.push_front(5);
    assert_eq!(list.pop_front(), Some(5));
    assert_eq!(list.pop_front(), Some(2));
    assert_eq!(list.pop_front(), Some(1));
    assert_eq!(list.pop_front(), None);
}

#[test]
fn peek_front() {
    let mut list = List::new();
    assert!(list.peek_front().is_none());
    list.push_front("one");
    assert_eq!(*list.peek_front().unwrap(), "one");
    assert_eq!(*list.peek_front().unwrap(), "one");
    list.push_front("two");
    list.push_front("three");
    assert_eq!(*list.peek_front().unwrap(), "three");
}

#[test]
fn peek_front_mut() {
    let mut list = List::new();
    assert!(list.peek_front_mut().is_none());
    list.push_front(1);
    assert_eq!(*list.peek_front_mut().unwrap(), 1);
    list.push_front(2);
    list.push_front(3);
    list.push_back(4);
    assert_eq!(&mut *list.peek_front_mut().unwrap(), &mut 3);
}

#[test]
fn peek_back_mut() {
    let mut list = List::new();
    assert!(list.peek_back_mut().is_none());
    list.push_front(1);
    assert_eq!(*list.peek_back_mut().unwrap(), 1);
    list.push_front(2);
    list.push_front(3);
    list.push_back(4);
    assert_eq!(&mut *list.peek_back_mut().unwrap(), &mut 4);
}

#[test]
fn pop_back() {
    let mut list = List::new();
    assert_eq!(list.pop_back(), None);
    list.push_front(1);
    assert_eq!(list.pop_back(), Some(1));
    list.push_front(2);
    list.push_front(3);
    list.push_front(4);
    assert_eq!(list.pop_back(), Some(2));
    assert_eq!(list.pop_back(), Some(3));
    assert_eq!(list.pop_back(), Some(4));
    assert_eq!(list.pop_back(), None);
    assert_eq!(list.pop_back(), None);
}

#[test]
fn push_back() {
    let mut list = List::new();
    list.push_back(1);
    assert_eq!(list.pop_back(), Some(1));
    assert_eq!(list.pop_back(), None);
    list.push_back(2);
    list.push_back(3);
    list.push_back(4);
    list.push_back(5);
    assert_eq!(&*list.peek_front().unwrap(), &2);
    assert_eq!(list.pop_front(), Some(2));
    assert_eq!(list.pop_back(), Some(5));
    assert_eq!(list.pop_front(), Some(3));
    assert_eq!(list.pop_back(), Some(4));
}

#[test]
fn peek_back() {
    let mut list = List::new();
    assert!(list.peek_back().is_none());
    list.push_back(1);
    assert_eq!(&*list.peek_back().unwrap(), &1);
    list.push_back(2);
    list.push_back(3);
    assert_eq!(&*list.peek_back().unwrap(), &3);
}

#[test]
fn fourth_into_iter() {
    let list: List<i32> = List::new();
    let mut list = list.into_iter();
    assert_eq!(list.next(), None);
    let list: List<&str> = List::new();
    let mut list = list.into_iter();
    assert_eq!(list.next_back(), None);
    let mut list = List::new();
    list.push_front(2);
    list.push_back(1);
    list.push_front(3);
    let mut list = list.into_iter();
    assert_eq!(list.next(), Some(3));
    assert_eq!(list.next_back(), Some(1));
    assert_eq!(list.next(), Some(2));
    assert_eq!(list.next_back(), None);
}

#[test]
fn deque_symmetry_scenario() {
    // Front pushes come back out before back pushes, each group in its own
    // proper order.
    let mut list = List::new();
    list.push_back(1);
    list.push_back(2);
    assert_eq!(list.pop_front(), Some(1));
    list.push_front(3);
    assert_eq!(list.pop_back(), Some(2));
    assert_eq!(list.pop_front(), Some(3));
    assert_eq!(list.pop_front(), None);
}

#[test]
fn deque_interleaved_drain() {
    // Draining from both ends in alternation never repeats an element and
    // stops once the ends meet.
    let mut list = List::new();
    for i in 1..=6 {
        list.push_back(i);
    }
    let mut it = list.into_iter();
    assert_eq!(it.next(), Some(1));
    assert_eq!(it.next_back(), Some(6));
    assert_eq!(it.next(), Some(2));
    assert_eq!(it.next_back(), Some(5));
    assert_eq!(it.next(), Some(3));
    assert_eq!(it.next_back(), Some(4));
    assert_eq!(it.next(), None);
    assert_eq!(it.next_back(), None);
}

#[test]
fn deque_empty_on_empty() {
    let mut list: List<u8> = List::new();
    assert_eq!(list.pop_front(), None);
    assert_eq!(list.pop_back(), None);
    assert!(list.peek_front().is_none());
    assert!(list.peek_back().is_none());
    assert!(list.peek_front_mut().is_none());
    assert!(list.peek_back_mut().is_none());
}

#[test]
fn deque_stress() {
    let mut list: List<u32> = List::new();
    for i in 0..10_000 {
        if i % 2 == 0 {
            list.push_back(i);
        } else {
            list.push_front(i);
        }
    }
    let mut seen = 0;
    while list.pop_front().is_some() {
        seen += 1;
    }
    assert_eq!(seen, 10_000);
    assert_eq!(list.pop_back(), None);

    let mut list: List<u32> = List::new();
    for i in 0..10_000 {
        list.push_back(i);
    }
    list.clear();
    assert_eq!(list.pop_front(), None);
}
