//! A priority queue of intervals.
//!
//! The queue is a binary heap laid out in a vector, with its greatest item at
//! the root. "Greatest" is meant by the comparator of [`Interval`], which is
//! the order of the intervals in reverse: so the root is the interval that
//! precedes all the others, and the queue hands out the shortest interval
//! first, the earliest start first among equal lengths.

use crate::interval::Interval;
use vstd::multiset::lemma_multiset_empty_len;
use vstd::multiset::Multiset;
use vstd::prelude::*;
use vstd::seq_lib::to_multiset_build;
use vstd::seq_lib::to_multiset_contains;
use vstd::seq_lib::to_multiset_remove;
use vstd::seq_lib::to_multiset_update;

verus! {

/// `x` is an item of `m` that no item of `m` precedes.
pub open spec fn is_first(m: Multiset<Interval>, x: Interval) -> bool {
    &&& m.contains(x)
    &&& forall|y: Interval| #[trigger] m.contains(y) ==> !y.precedes(x)
}

/// The index of the parent of node `i`.
spec fn parent(i: int) -> int {
    (i - 1) / 2
}

/// Node `i` is in order with its parent: it does not precede it.
spec fn heap_at(s: Seq<Interval>, i: int) -> bool {
    i >= 1 ==> !s[i].precedes(s[parent(i)])
}

/// Every node is in order with its parent.
spec fn is_heap(s: Seq<Interval>) -> bool {
    forall|i: int| 0 <= i < s.len() ==> #[trigger] heap_at(s, i)
}

/// In a heap, no node precedes the root.
proof fn lemma_root_precedes_none(s: Seq<Interval>, i: int)
    requires
        is_heap(s),
        0 <= i < s.len(),
    ensures
        !s[i].precedes(s[0]),
    decreases i,
{
    if i >= 1 {
        assert(heap_at(s, i));
        lemma_root_precedes_none(s, parent(i));
    }
}

/// The root of a heap that is not empty is the first of its items.
proof fn lemma_root_is_first(s: Seq<Interval>)
    requires
        is_heap(s),
        s.len() > 0,
    ensures
        is_first(s.to_multiset(), s[0]),
{
    let m = s.to_multiset();
    assert(m.contains(s[0])) by {
        to_multiset_contains(s, s[0]);
        assert(s.contains(s[0]));
    }
    assert forall|y: Interval| #[trigger] m.contains(y) implies !y.precedes(s[0]) by {
        to_multiset_contains(s, y);
        let i = choose|i: int| 0 <= i < s.len() && s[i] == y;
        lemma_root_precedes_none(s, i);
    }
}

/// Node `i` is in order with the parent of its parent, if it has one.
spec fn skip_at(s: Seq<Interval>, i: int) -> bool {
    parent(i) >= 1 ==> !s[i].precedes(s[parent(parent(i))])
}

/// A heap but for node `hole`, which may precede its parent. The children of
/// `hole` are in order with the parent of `hole`.
spec fn heap_but_up(s: Seq<Interval>, hole: int) -> bool {
    &&& forall|j: int| 0 <= j < s.len() && j != hole ==> #[trigger] heap_at(s, j)
    &&& forall|c: int| 0 <= c < s.len() && parent(c) == hole ==> #[trigger] skip_at(s, c)
}

/// Exchanging two items of a sequence keeps its multiset.
proof fn lemma_swap_keeps_multiset(s: Seq<Interval>, i: int, j: int)
    requires
        0 <= i < s.len(),
        0 <= j < s.len(),
    ensures
        s.update(i, s[j]).update(j, s[i]).to_multiset() == s.to_multiset(),
{
    let t = s.update(i, s[j]);
    to_multiset_update(s, i, s[j]);
    to_multiset_update(t, j, s[i]);
    to_multiset_contains(s, s[i]);
    to_multiset_contains(s, s[j]);
    assert(s.contains(s[i]));
    assert(s.contains(s[j]));
    assert(t.update(j, s[i]).to_multiset() =~= s.to_multiset());
}

/// Exchanges the items at `i` and `j`.
fn swap_items(items: &mut Vec<Interval>, i: usize, j: usize)
    requires
        i < old(items).len(),
        j < old(items).len(),
    ensures
        final(items)@ == old(items)@.update(i as int, old(items)@[j as int]).update(
            j as int,
            old(items)@[i as int],
        ),
        final(items)@.to_multiset() == old(items)@.to_multiset(),
{
    proof {
        lemma_swap_keeps_multiset(items@, i as int, j as int);
    }
    let a = items[i];
    let b = items[j];
    items.set(i, b);
    items.set(j, a);
}

/// Moves the item at `start` towards the root until it no longer precedes
/// its parent.
fn sift_up(items: &mut Vec<Interval>, start: usize)
    requires
        start < old(items).len(),
        heap_but_up(old(items)@, start as int),
    ensures
        is_heap(final(items)@),
        final(items)@.to_multiset() == old(items)@.to_multiset(),
{
    let mut i: usize = start;
    let mut settled: bool = false;
    while i > 0 && !settled
        invariant
            i < items.len(),
            heap_but_up(items@, i as int),
            settled ==> heap_at(items@, i as int),
            items@.to_multiset() == old(items)@.to_multiset(),
        decreases i + (if settled { 0int } else { 1int }),
    {
        let p: usize = (i - 1) / 2;
        if items[i] > items[p] {
            let ghost before = items@;
            swap_items(items, i, p);
            proof {
                let after = items@;
                let hole = i as int;
                let up = p as int;
                assert(heap_at(before, up));
                assert forall|j: int| 0 <= j < after.len() && j != up implies #[trigger] heap_at(
                    after,
                    j,
                ) by {
                    if j == hole {
                        assert(before[hole].precedes(before[up]));
                    } else if parent(j) == hole {
                        assert(skip_at(before, j));
                    } else {
                        assert(heap_at(before, j));
                    }
                }
                assert forall|c: int| 0 <= c < after.len() && parent(c) == up implies #[trigger] skip_at(
                    after,
                    c,
                ) by {
                    if c != hole {
                        assert(heap_at(before, c));
                    }
                }
            }
            i = p;
        } else {
            settled = true;
        }
    }
    proof {
        assert(heap_at(items@, i as int));
    }
}

/// A heap but for the children of node `hole`, which may precede it. They
/// are in order with the parent of `hole`.
spec fn heap_but_down(s: Seq<Interval>, hole: int) -> bool {
    &&& forall|j: int| 0 <= j < s.len() && parent(j) != hole ==> #[trigger] heap_at(s, j)
    &&& forall|c: int| 0 <= c < s.len() && parent(c) == hole ==> #[trigger] skip_at(s, c)
}

/// Moves the item at `start` away from the root, each time into the place
/// of the first of its children, until none of its children precedes it.
fn sift_down(items: &mut Vec<Interval>, start: usize)
    requires
        start < old(items).len(),
        heap_but_down(old(items)@, start as int),
    ensures
        is_heap(final(items)@),
        final(items)@.to_multiset() == old(items)@.to_multiset(),
{
    let n: usize = items.len();
    let mut i: usize = start;
    let mut settled: bool = false;
    while i < n / 2 && !settled
        invariant
            n == items.len(),
            i < n,
            heap_but_down(items@, i as int),
            settled ==> forall|c: int| 0 <= c < n && parent(c) == i ==> #[trigger] heap_at(items@, c),
            items@.to_multiset() == old(items)@.to_multiset(),
        decreases n - i + (if settled { 0int } else { 1int }),
    {
        let left: usize = 2 * i + 1;
        let right: usize = left + 1;
        let mut child: usize = left;
        if right < n && items[right] > items[left] {
            child = right;
        }
        if items[child] > items[i] {
            let ghost before = items@;
            swap_items(items, i, child);
            proof {
                let after = items@;
                let hole = i as int;
                let down = child as int;
                assert forall|j: int| 0 <= j < after.len() && parent(j) != down implies #[trigger] heap_at(
                    after,
                    j,
                ) by {
                    if j == hole {
                        assert(skip_at(before, down));
                    } else if parent(j) == hole {
                    } else {
                        assert(heap_at(before, j));
                    }
                }
                assert forall|c: int| 0 <= c < after.len() && parent(c) == down implies #[trigger] skip_at(
                    after,
                    c,
                ) by {
                    assert(heap_at(before, c));
                }
            }
            i = child;
        } else {
            settled = true;
            proof {
                let s = items@;
                assert forall|c: int| 0 <= c < n && parent(c) == i implies #[trigger] heap_at(s, c) by {
                    assert(c == left || c == right);
                }
            }
        }
    }
    proof {
        let s = items@;
        assert forall|j: int| 0 <= j < s.len() implies #[trigger] heap_at(s, j) by {
            if parent(j) != i {
                assert(heap_at(s, j));
            }
        }
    }
}

/// A priority queue that hands out the first of its intervals: the shortest,
/// and among the shortest the one that starts earliest.
///
/// Its view is the multiset of the intervals it holds.
pub struct IntervalHeap {
    items: Vec<Interval>,
}

impl View for IntervalHeap {
    type V = Multiset<Interval>;

    closed spec fn view(&self) -> Multiset<Interval> {
        self.items@.to_multiset()
    }
}

impl IntervalHeap {
    #[verifier::type_invariant]
    spec fn heap_ordered(self) -> bool {
        is_heap(self.items@)
    }

    /// An empty queue.
    pub fn new() -> (h: IntervalHeap)
        ensures
            h@ == Multiset::<Interval>::empty(),
    {
        let h = IntervalHeap { items: Vec::new() };
        proof {
            h.items@.to_multiset_ensures();
            lemma_multiset_empty_len(h.items@.to_multiset());
        }
        h
    }

    /// The number of intervals in the queue.
    pub fn len(&self) -> (n: usize)
        ensures
            n == self@.len(),
    {
        proof {
            self.items@.to_multiset_ensures();
        }
        self.items.len()
    }

    /// Whether the queue holds no interval.
    pub fn is_empty(&self) -> (b: bool)
        ensures
            b <==> self@.len() == 0,
    {
        proof {
            self.items@.to_multiset_ensures();
        }
        self.items.len() == 0
    }

    /// Adds an interval to the queue.
    pub fn push(&mut self, item: Interval)
        ensures
            final(self)@ == old(self)@.insert(item),
    {
        proof {
            use_type_invariant(&*self);
        }
        let mut items: Vec<Interval> = Vec::new();
        std::mem::swap(&mut items, &mut self.items);
        let n: usize = items.len();
        proof {
            to_multiset_build(items@, item);
        }
        items.push(item);
        proof {
            let s = items@;
            assert forall|j: int| 0 <= j < s.len() && j != n implies #[trigger] heap_at(s, j) by {
                assert(heap_at(old(self).items@, j));
            }
        }
        sift_up(&mut items, n);
        self.items = items;
    }

    /// Takes the first interval out of the queue and returns it, or returns
    /// `None` and leaves the queue as it is when the queue is empty.
    pub fn pop(&mut self) -> (r: Option<Interval>)
        ensures
            match r {
                Some(x) => is_first(old(self)@, x) && final(self)@ == old(self)@.remove(x),
                None => old(self)@.len() == 0 && final(self)@ == old(self)@,
            },
    {
        proof {
            use_type_invariant(&*self);
        }
        let mut items: Vec<Interval> = Vec::new();
        std::mem::swap(&mut items, &mut self.items);
        let ghost full = items@;
        proof {
            full.to_multiset_ensures();
        }
        let r = match items.pop() {
            None => None,
            Some(last) => {
                proof {
                    lemma_root_is_first(full);
                    assert(items@ =~= full.remove(full.len() - 1));
                    to_multiset_remove(full, full.len() - 1);
                }
                if items.len() == 0 {
                    Some(last)
                } else {
                    let root = items[0];
                    let ghost rest = items@;
                    items.set(0, last);
                    proof {
                        let s = items@;
                        to_multiset_update(rest, 0, last);
                        assert(s.to_multiset() =~= full.to_multiset().remove(root));
                        assert forall|j: int| 0 <= j < s.len() && parent(j) != 0 implies #[trigger] heap_at(
                            s,
                            j,
                        ) by {
                            assert(heap_at(full, j));
                        }
                    }
                    sift_down(&mut items, 0);
                    Some(root)
                }
            },
        };
        self.items = items;
        r
    }

    /// The interval that [`IntervalHeap::pop`] would hand out, or `None` when
    /// the queue is empty.
    pub fn peek(&self) -> (r: Option<&Interval>)
        ensures
            match r {
                Some(x) => is_first(self@, *x),
                None => self@.len() == 0,
            },
    {
        proof {
            use_type_invariant(self);
            self.items@.to_multiset_ensures();
        }
        if self.items.len() == 0 {
            None
        } else {
            proof {
                lemma_root_is_first(self.items@);
            }
            Some(&self.items[0])
        }
    }
}

} // verus!
