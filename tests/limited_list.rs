use particle_field::LimitedList;

#[test]
fn limited_list_starts_empty() {
    let list = LimitedList::<u32, 3>::new();
    assert_eq!(list.iter(), Vec::<u32>::new());
    assert_eq!(list.last(), None);
}

#[test]
fn limited_list_keeps_order_before_wrapping() {
    let mut list = LimitedList::<u32, 3>::new();
    list.push(10);
    list.push(20);
    assert_eq!(list.iter(), vec![10, 20]);
    assert_eq!(list.last(), Some(&20));
}

#[test]
fn limited_list_drops_oldest_when_full() {
    let mut list = LimitedList::<u32, 3>::new();
    for v in 1..=7 {
        list.push(v);
    }
    assert_eq!(list.iter(), vec![5, 6, 7]);
    assert_eq!(list.last(), Some(&7));
}

#[test]
fn limited_list_of_one_holds_the_latest() {
    let mut list = LimitedList::<i64, 1>::new();
    list.push(-4);
    list.push(9);
    assert_eq!(list.iter(), vec![9]);
    assert_eq!(list.last(), Some(&9));
}
