use interval_order::Interval;
use interval_order::IntervalHeap;
use interval_order::TestFixtures;

fn iv(start: usize, end: usize) -> Interval {
    Interval::new(start, end).unwrap()
}

#[test]
fn test_min_heap() {
    let intervals = TestFixtures::test_fixture_1();
    let mut heap = IntervalHeap::new();
    for i in intervals {
        heap.push(i);
    }

    assert_eq!(heap.pop(), Some(iv(5, 10)));
    assert_eq!(heap.pop(), Some(iv(15, 20)));
    assert_eq!(heap.pop(), Some(iv(0, 30)));
}

#[test]
fn fixture_holds_the_three_intervals_as_given() {
    let intervals = TestFixtures::test_fixture_1();
    assert_eq!(intervals, vec![iv(15, 20), iv(0, 30), iv(5, 10)]);
    let lengths: Vec<usize> = intervals.iter().map(|i| i.length()).collect();
    assert_eq!(lengths, vec![5, 30, 5]);
}

#[test]
fn empty_heap_has_nothing_to_give() {
    let mut heap = IntervalHeap::new();
    assert!(heap.is_empty());
    assert_eq!(heap.len(), 0);
    assert_eq!(heap.peek(), None);
    assert_eq!(heap.pop(), None);
    assert!(heap.is_empty());
}

#[test]
fn peek_shows_what_pop_takes() {
    let mut heap = IntervalHeap::new();
    heap.push(iv(0, 30));
    assert_eq!(heap.peek(), Some(&iv(0, 30)));
    heap.push(iv(15, 20));
    assert_eq!(heap.peek(), Some(&iv(15, 20)));
    heap.push(iv(5, 10));
    assert_eq!(heap.peek(), Some(&iv(5, 10)));
    assert_eq!(heap.len(), 3);
    assert_eq!(heap.pop(), Some(iv(5, 10)));
    assert_eq!(heap.len(), 2);
    assert_eq!(heap.peek(), Some(&iv(15, 20)));
}

#[test]
fn push_and_pop_may_alternate() {
    let mut heap = IntervalHeap::new();
    heap.push(iv(0, 8));
    heap.push(iv(0, 3));
    assert_eq!(heap.pop(), Some(iv(0, 3)));
    heap.push(iv(4, 5));
    heap.push(iv(2, 9));
    assert_eq!(heap.pop(), Some(iv(4, 5)));
    assert_eq!(heap.pop(), Some(iv(2, 9)));
    assert_eq!(heap.pop(), Some(iv(0, 8)));
    assert_eq!(heap.pop(), None);
}

#[test]
fn heap_keeps_equal_intervals_apart() {
    let mut heap = IntervalHeap::new();
    heap.push(iv(3, 7));
    heap.push(iv(3, 7));
    heap.push(iv(3, 7));
    assert_eq!(heap.len(), 3);
    assert_eq!(heap.pop(), Some(iv(3, 7)));
    assert_eq!(heap.pop(), Some(iv(3, 7)));
    assert_eq!(heap.pop(), Some(iv(3, 7)));
    assert_eq!(heap.pop(), None);
}

#[test]
fn heap_empties_in_order_whatever_the_order_of_arrival() {
    let mut state: usize = 12345;
    let mut heap = IntervalHeap::new();
    let mut count = 0;
    while count < 200 {
        state = (state * 1103515245 + 12345) % 2147483648;
        let start = state % 50;
        state = (state * 1103515245 + 12345) % 2147483648;
        let length = state % 20;
        heap.push(iv(start, start + length));
        count += 1;
    }
    assert_eq!(heap.len(), 200);
    let mut last = heap.pop().unwrap();
    let mut seen = 1;
    while let Some(next) = heap.pop() {
        assert!((last.length(), last.start()) <= (next.length(), next.start()));
        last = next;
        seen += 1;
    }
    assert_eq!(seen, 200);
}
