use libnm::list::List;

#[test]
fn lists() {
    let list: List<i32> = List::new();
    assert_eq!(list.car(), None);

    let list = list.prepend(1).prepend(2).prepend(3);
    assert_eq!(list.car(), Some(&3));

    let list = list.cdr();
    assert_eq!(list.car(), Some(&2));

    let list = list.cdr();
    assert_eq!(list.car(), Some(&1));

    let list = list.cdr();
    assert_eq!(list.car(), None);

    let list = list.cdr();
    assert_eq!(list.car(), None);
}

#[test]
fn list_iter() {
    let list = List::new().prepend(3).prepend(2).prepend(1);

    let mut iter = list.iter();
    assert_eq!(iter.next(), Some(&1));
    assert_eq!(iter.next(), Some(&2));
    assert_eq!(iter.next(), Some(&3));
}

#[test]
fn list_sharing() {
    let base = List::new().prepend(1).prepend(2);
    let a = base.prepend(3);
    let b = base.prepend(4);
    assert_eq!(a.car(), Some(&3));
    assert_eq!(b.car(), Some(&4));
    assert_eq!(a.cdr().car(), Some(&2));
    assert_eq!(b.cdr().car(), Some(&2));
    assert_eq!(base.car(), Some(&2));
}

#[test]
fn list_clone_shares() {
    let a = List::new().prepend("x").prepend("y");
    let b = a.clone();
    assert_eq!(b.car(), Some(&"y"));
    assert_eq!(b.cdr().car(), Some(&"x"));
    assert_eq!(a.car(), Some(&"y"));
}

#[test]
fn long_list_teardown() {
    let mut list: List<u64> = List::new();
    for i in 0..100000u64 {
        list = list.prepend(i);
    }
    assert_eq!(list.car(), Some(&99999));
    drop(list);
}
