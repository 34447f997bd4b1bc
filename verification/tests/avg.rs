use perf_monitor::avg::{LinkedList, Node};
use perf_monitor::stats::Statistics;

fn buckets(list: &LinkedList) -> Vec<(u32, u32)> {
    list.nodes().iter().map(|n| (n.counter, n.sum)).collect()
}

fn total(list: &LinkedList) -> u128 {
    list.nodes().iter().map(|n| n.sum as u128).sum()
}

#[test]
fn new_list_has_one_empty_bucket() {
    let list = LinkedList::new();
    assert_eq!(buckets(&list), vec![(0, 0)]);
}

#[test]
fn small_values_join_the_last_bucket() {
    let mut list = LinkedList::new();
    list.add(5);
    list.add(7);
    assert_eq!(buckets(&list), vec![(2, 12)]);
}

#[test]
fn zero_adds_nothing() {
    let mut list = LinkedList::new();
    list.add(0);
    assert_eq!(buckets(&list), vec![(0, 0)]);
}

#[test]
fn large_value_is_split_into_chunks() {
    let mut list = LinkedList::new();
    list.add(u32::MAX as u128 + 5);
    assert_eq!(buckets(&list), vec![(1, u32::MAX), (1, 5)]);
    assert_eq!(total(&list), u32::MAX as u128 + 5);
}

#[test]
fn full_bucket_opens_a_new_one() {
    let mut list = LinkedList::new();
    list.add(u32::MAX as u128 - 1);
    list.add(1);
    list.add(1);
    assert_eq!(buckets(&list), vec![(2, u32::MAX), (1, 1)]);
}

#[test]
fn sum_of_buckets_is_sum_of_values() {
    let mut list = LinkedList::new();
    let values: Vec<u128> = vec![3, u32::MAX as u128 * 3 + 2, 0, 17, 1 << 40];
    for v in &values {
        list.add(*v);
    }
    assert_eq!(total(&list), values.iter().sum::<u128>());
    let count: u64 = list.nodes().iter().map(|n| n.counter as u64).sum();
    // 1 + 4 + 0 + 1 + 257 chunks
    assert_eq!(count, 263);
}

#[test]
fn node_capacity_checks() {
    let node = Node::new(3, u32::MAX - 10);
    assert!(node.can_add_data(10));
    assert!(!node.can_add_data(11));
    let full = Node::new(u32::MAX, 0);
    assert!(!full.can_add_data(0));
    let mut n = Node::new(1, 2);
    n.add_data_in_place(40);
    assert_eq!((n.counter, n.sum), (2, 42));
}

#[test]
fn statistics_start_empty() {
    let stats = Statistics::new();
    assert_eq!(stats.max(), 0);
    assert_eq!(stats.min(), u64::MAX);
    assert_eq!(buckets(stats.average()), vec![(0, 0)]);
}

#[test]
fn statistics_track_extremes_and_sum() {
    let mut stats = Statistics::new();
    for v in [40u64, 7, 99, 7, 12] {
        stats.record(v);
    }
    assert_eq!(stats.max(), 99);
    assert_eq!(stats.min(), 7);
    assert_eq!(total(stats.average()), 165);
    assert_eq!(buckets(stats.average()), vec![(5, 165)]);
}

#[test]
fn new_buckets_hold_one_chunk_and_all_but_last_are_full() {
    let mut list = LinkedList::new();
    list.add(7);
    list.add(u32::MAX as u128 * 3 + 9);
    assert_eq!(
        buckets(&list),
        vec![(1, 7), (1, u32::MAX), (1, u32::MAX), (1, u32::MAX), (1, 9)]
    );
}
