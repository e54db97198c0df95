use interval_order::extract_in_order;
use interval_order::Interval;
use interval_order::TestFixtures;
use std::cmp::Ordering;
use std::collections::BinaryHeap;

fn iv(start: usize, end: usize) -> Interval {
    Interval::new(start, end).unwrap()
}

/// Lets std's heap order intervals by the library's comparator.
#[derive(PartialEq, Eq)]
struct ByComparator(Interval);

impl Ord for ByComparator {
    fn cmp(&self, other: &Self) -> Ordering {
        self.0.cmp(&other.0)
    }
}

impl PartialOrd for ByComparator {
    fn partial_cmp(&self, other: &Self) -> Option<Ordering> {
        Some(self.cmp(other))
    }
}

#[test]
fn fixture_comes_out_shortest_first_then_earliest() {
    let out = extract_in_order(&TestFixtures::test_fixture_1());
    assert_eq!(out, vec![iv(5, 10), iv(15, 20), iv(0, 30)]);
}

#[test]
fn order_of_arrival_does_not_matter() {
    let expected = vec![iv(5, 10), iv(15, 20), iv(0, 30)];
    assert_eq!(extract_in_order(&vec![iv(0, 30), iv(5, 10), iv(15, 20)]), expected);
    assert_eq!(extract_in_order(&vec![iv(5, 10), iv(15, 20), iv(0, 30)]), expected);
    assert_eq!(extract_in_order(&vec![iv(0, 30), iv(15, 20), iv(5, 10)]), expected);
    assert_eq!(extract_in_order(&vec![iv(15, 20), iv(5, 10), iv(0, 30)]), expected);
}

#[test]
fn single_interval_comes_back_alone() {
    assert_eq!(extract_in_order(&vec![iv(4, 9)]), vec![iv(4, 9)]);
}

#[test]
fn nothing_in_nothing_out() {
    assert_eq!(extract_in_order(&Vec::new()), Vec::new());
}

#[test]
fn equal_intervals_all_come_out() {
    let out = extract_in_order(&vec![iv(2, 6), iv(0, 1), iv(2, 6)]);
    assert_eq!(out, vec![iv(0, 1), iv(2, 6), iv(2, 6)]);
    assert_eq!(out[1], out[2]);
}

#[test]
fn empty_intervals_come_first_by_start() {
    let out = extract_in_order(&vec![iv(3, 4), iv(9, 9), iv(0, 2), iv(1, 1)]);
    assert_eq!(out, vec![iv(1, 1), iv(9, 9), iv(3, 4), iv(0, 2)]);
}

#[test]
fn std_heap_with_the_comparator_gives_the_same_order() {
    let mut state: usize = 987654321;
    let mut input = Vec::new();
    while input.len() < 300 {
        state = (state * 1103515245 + 12345) % 2147483648;
        let start = state % 40;
        state = (state * 1103515245 + 12345) % 2147483648;
        let length = state % 15;
        input.push(iv(start, start + length));
    }
    let mut std_heap = BinaryHeap::new();
    for i in input.iter() {
        std_heap.push(ByComparator(*i));
    }
    let mut expected = Vec::new();
    while let Some(ByComparator(i)) = std_heap.pop() {
        expected.push(i);
    }
    let out = extract_in_order(&input);
    assert_eq!(out, expected);

    let mut keys: Vec<(usize, usize)> = input.iter().map(|i| (i.length(), i.start())).collect();
    keys.sort();
    let out_keys: Vec<(usize, usize)> = out.iter().map(|i| (i.length(), i.start())).collect();
    assert_eq!(out_keys, keys);
}
