use testgen::stats::{median, sort_u64};

#[test]
fn sort_orders_and_keeps_values() {
    let mut v = vec![5u64, 1, 4, 1, 3, 9, 2];
    sort_u64(&mut v);
    assert_eq!(v, vec![1, 1, 2, 3, 4, 5, 9]);
}

#[test]
fn sort_handles_edges() {
    let mut empty: Vec<u64> = vec![];
    sort_u64(&mut empty);
    assert!(empty.is_empty());
    let mut one = vec![7u64];
    sort_u64(&mut one);
    assert_eq!(one, vec![7]);
    let mut sorted = vec![1u64, 2, 3];
    sort_u64(&mut sorted);
    assert_eq!(sorted, vec![1, 2, 3]);
}

#[test]
fn median_of_odd_series() {
    assert_eq!(median(&vec![1, 3, 9]), Some(3));
    assert_eq!(median(&vec![42]), Some(42));
}

#[test]
fn median_of_even_series() {
    assert_eq!(median(&vec![1, 3, 5, 9]), Some(4));
    assert_eq!(median(&vec![2, 4]), Some(3));
    assert_eq!(median(&vec![2, 2]), Some(2));
}

#[test]
fn median_does_not_overflow() {
    assert_eq!(median(&vec![u64::MAX - 1, u64::MAX]), Some(u64::MAX - 1));
}

#[test]
fn median_of_empty_series() {
    assert_eq!(median(&vec![]), None);
}
