use linked_lists::persistent::List;

#[test]
fn third_basics() {
    let list: List<i32> = List::new();
    assert_eq!(list.head(), None);

    let list = list.prepend(1);
    assert_eq!(list.head(), Some(&1));

    let list = list.behead();
    assert_eq!(list.head(), None);

    let list = list.prepend(1).prepend(2).prepend(3);
    assert_eq!(list.head(), Some(&3));

    let list = list.behead();
    assert_eq!(list.head(), Some(&2));

    let list = list.behead();
    assert_eq!(list.head(), Some(&1));

    let list = list.behead();
    assert_eq!(list.head(), None);

    let list = list.behead();
    assert_eq!(list.head(), None);
}

#[test]
fn persistent_iter() {
    let list: List<i32> = List::new();
    let mut it = list.iter();
    assert_eq!(it.next(), None);

    let list = list.prepend(1).prepend(2).prepend(3);
    let mut it = list.iter();
    assert_eq!(it.next(), Some(&3));
    assert_eq!(it.next(), Some(&2));
    assert_eq!(it.next(), Some(&1));
    assert_eq!(it.next(), None);
    assert_eq!(it.next(), None);
}

#[test]
fn persistent_sharing() {
    // Prepending never disturbs the original list, and the new list sees
    // the original from its second element on.
    let list = List::new().prepend(10).prepend(20);
    let longer = list.prepend(30);
    assert_eq!(list.head(), Some(&20));
    assert_eq!(longer.head(), Some(&30));
    assert_eq!(longer.behead().head(), list.head());
}

#[test]
fn persistent_round_trip() {
    // Prepend then behead recovers the original list observably: same
    // head, same elements in the same order.
    let list = List::new().prepend(1).prepend(2).prepend(3);
    let round = list.prepend(4).behead();
    assert_eq!(round.head(), list.head());
    let mut a = list.iter();
    let mut b = round.iter();
    loop {
        let x = a.next();
        let y = b.next();
        assert_eq!(x, y);
        if x.is_none() {
            break;
        }
    }
}

#[test]
fn persistent_empty_on_empty() {
    let list: List<i32> = List::new();
    assert_eq!(list.head(), None);
    assert_eq!(list.iter().next(), None);
    let list = list.behead();
    assert_eq!(list.head(), None);
}

#[test]
fn persistent_stress() {
    // A long chain must tear down without deep recursion, and a chain with
    // many sharing descendants must survive their release untouched.
    let mut list: List<u32> = List::new();
    for i in 0..10_000 {
        list = list.prepend(i);
    }
    assert_eq!(list.head(), Some(&9_999));

    let mut derived = Vec::new();
    for i in 0..100 {
        derived.push(list.behead().prepend(100_000 + i));
    }
    for mut d in derived {
        assert_eq!(d.behead().head(), Some(&9_998));
        d.clear();
    }
    assert_eq!(list.head(), Some(&9_999));
    list.clear();
    assert_eq!(list.head(), None);
}
