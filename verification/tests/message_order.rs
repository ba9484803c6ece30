use std::cmp::Ordering;

use quickfix_native::message_order::MessageOrder;

#[test]
fn header_puts_begin_string_length_and_type_first() {
    let order = MessageOrder::header();
    assert_eq!(order.compare(8, 9), Ordering::Less);
    assert_eq!(order.compare(9, 35), Ordering::Less);
    assert_eq!(order.compare(35, 8), Ordering::Greater);
    assert_eq!(order.compare(35, 49), Ordering::Less);
    assert_eq!(order.compare(49, 56), Ordering::Less);
    assert_eq!(order.compare(56, 56), Ordering::Equal);
    assert!(order.goes_after(49, 35));
    assert!(!order.goes_after(8, 9));
}

#[test]
fn trailer_puts_check_sum_last() {
    let order = MessageOrder::trailer();
    assert_eq!(order.compare(10, 93), Ordering::Greater);
    assert_eq!(order.compare(93, 10), Ordering::Less);
    assert_eq!(order.compare(89, 93), Ordering::Greater);
    assert_eq!(order.compare(10, 10), Ordering::Greater);
    assert_eq!(order.compare(58, 20), Ordering::Greater);
}

#[test]
fn normal_orders_by_tag() {
    let order = MessageOrder::normal();
    assert_eq!(order.compare(1, 2), Ordering::Less);
    assert_eq!(order.compare(200, 100), Ordering::Greater);
    assert_eq!(order.compare(7, 7), Ordering::Equal);
}

#[test]
fn group_order_follows_the_given_positions() {
    // tag 1 at position 3, tag 2 at position 1, tag 3 at position 2
    let order = MessageOrder::group(vec![0, 3, 1, 2]);
    assert_eq!(order.compare(2, 3), Ordering::Less);
    assert_eq!(order.compare(1, 2), Ordering::Greater);
    assert_eq!(order.compare(3, 1), Ordering::Less);
    assert_eq!(order.compare(0, 1), Ordering::Greater);
    assert_eq!(order.compare(5, 1), Ordering::Greater);
    assert_eq!(order.compare(1, 5), Ordering::Less);
    assert_eq!(order.compare(4, 5), Ordering::Less);
    let copy = order.clone();
    assert_eq!(copy.compare(1, 2), Ordering::Greater);
    assert!(copy.goes_after(1, 2));
}
