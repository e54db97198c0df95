//! Putting intervals in order by way of the priority queue.

use crate::heap::IntervalHeap;
use crate::interval::Interval;
use vstd::multiset::lemma_multiset_empty_len;
use vstd::prelude::*;
use vstd::seq_lib::to_multiset_build;
use vstd::seq_lib::to_multiset_contains;
use vstd::seq_lib::to_multiset_len;
use vstd::seq_lib::to_multiset_remove;

verus! {

/// The sequence is in order: no item precedes an item that comes before it.
/// Lengths never decrease along it, and within one length starts never do.
pub open spec fn is_sorted(s: Seq<Interval>) -> bool {
    forall|i: int, j: int| 0 <= i < j < s.len() ==> !(#[trigger] s[j]).precedes(#[trigger] s[i])
}

/// Returns the given intervals in order: shortest first, and among intervals
/// of one length the earliest start first. Every interval comes out as often
/// as it went in.
///
/// All intervals go into an [`IntervalHeap`], which is then emptied.
pub fn extract_in_order(intervals: &Vec<Interval>) -> (out: Vec<Interval>)
    ensures
        out@.to_multiset() == intervals@.to_multiset(),
        out@.len() == intervals@.len(),
        is_sorted(out@),
{
    let mut heap = IntervalHeap::new();
    let mut k: usize = 0;
    proof {
        let none = intervals@.subrange(0, 0);
        to_multiset_len(none);
        lemma_multiset_empty_len(none.to_multiset());
    }
    while k < intervals.len()
        invariant
            k <= intervals.len(),
            heap@ == intervals@.subrange(0, k as int).to_multiset(),
        decreases intervals.len() - k,
    {
        proof {
            let seen = intervals@.subrange(0, k as int);
            to_multiset_build(seen, intervals@[k as int]);
            assert(intervals@.subrange(0, k + 1) =~= seen.push(intervals@[k as int]));
        }
        heap.push(intervals[k]);
        k += 1;
    }
    assert(intervals@.subrange(0, k as int) =~= intervals@);
    let mut out: Vec<Interval> = Vec::new();
    proof {
        to_multiset_len(out@);
        lemma_multiset_empty_len(out@.to_multiset());
        assert(out@.to_multiset().add(heap@) =~= intervals@.to_multiset());
    }
    loop
        invariant
            out@.to_multiset().add(heap@) == intervals@.to_multiset(),
            is_sorted(out@),
            forall|i: int, y: Interval|
                0 <= i < out@.len() && #[trigger] heap@.contains(y) ==> !y.precedes(#[trigger] out@[i]),
        ensures
            heap@.len() == 0,
        decreases heap@.len(),
    {
        let ghost queued = heap@;
        let ghost done = out@;
        match heap.pop() {
            None => {
                break ;
            },
            Some(x) => {
                out.push(x);
                proof {
                    to_multiset_build(done, x);
                    assert(out@.to_multiset().add(heap@) =~= done.to_multiset().add(queued));
                    assert forall|i: int, y: Interval|
                        0 <= i < out@.len() && #[trigger] heap@.contains(y) implies !y.precedes(
                        #[trigger] out@[i],
                    ) by {
                        assert(queued.contains(y));
                    }
                    assert forall|i: int, j: int| 0 <= i < j < out@.len() implies !(#[trigger] out@[j]).precedes(
                        #[trigger] out@[i],
                    ) by {
                        if j == done.len() {
                            assert(queued.contains(x));
                            assert(out@[i] == done[i]);
                        } else {
                            assert(out@[i] == done[i] && out@[j] == done[j]);
                        }
                    }
                }
            },
        }
    }
    proof {
        lemma_multiset_empty_len(heap@);
        assert(out@.to_multiset().add(heap@) =~= out@.to_multiset());
        to_multiset_len(out@);
        to_multiset_len(intervals@);
    }
    out
}

/// Along a sequence that is in order the pairs of length and start never
/// decrease: of two items the later one is longer, or they are of one length
/// and the later one starts no earlier.
pub proof fn lemma_sorted_nondecreasing(s: Seq<Interval>, i: int, j: int)
    requires
        is_sorted(s),
        0 <= i <= j < s.len(),
    ensures
        s[i].spec_length() < s[j].spec_length() || (s[i].spec_length() == s[j].spec_length()
            && s[i]@.start <= s[j]@.start),
{
    if i < j {
        assert(!s[j].precedes(s[i]));
    }
}

/// There is only one way to put given intervals in order: two sequences that
/// are both in order and hold the same intervals, each as often as the
/// other, are the same sequence. So the result of [`extract_in_order`]
/// depends on which intervals it is given, and not on how they were arranged.
pub proof fn lemma_sorted_unique(a: Seq<Interval>, b: Seq<Interval>)
    requires
        is_sorted(a),
        is_sorted(b),
        a.to_multiset() == b.to_multiset(),
    ensures
        a == b,
    decreases a.len(),
{
    to_multiset_len(a);
    to_multiset_len(b);
    if a.len() == 0 {
        assert(a =~= b);
    } else {
        let n = a.len() - 1;
        let x = a[n];
        let y = b[n];
        to_multiset_contains(a, x);
        to_multiset_contains(b, x);
        to_multiset_contains(a, y);
        to_multiset_contains(b, y);
        assert(a.contains(x));
        assert(b.contains(y));
        let i = choose|i: int| 0 <= i < b.len() && b[i] == x;
        let j = choose|j: int| 0 <= j < a.len() && a[j] == y;
        assert(!y.precedes(x)) by {
            if i < n {
                assert(!b[n].precedes(b[i]));
            }
        }
        assert(!x.precedes(y)) by {
            if j < n {
                assert(!a[n].precedes(a[j]));
            }
        }
        Interval::lemma_eq_by_bounds(x, y);
        assert(x == y);
        to_multiset_remove(a, n);
        to_multiset_remove(b, n);
        assert(a.remove(n) =~= a.drop_last());
        assert(b.remove(n) =~= b.drop_last());
        assert(is_sorted(a.drop_last()));
        assert(is_sorted(b.drop_last()));
        lemma_sorted_unique(a.drop_last(), b.drop_last());
        assert(a =~= a.drop_last().push(x));
        assert(b =~= b.drop_last().push(y));
    }
}

} // verus!
