//! The interval value type and its comparator.

use std::cmp::Ordering;
use vstd::prelude::*;

verus! {

/// The mathematical content of an [`Interval`]: its two bounds.
pub ghost struct Bounds {
    pub start: nat,
    pub end: nat,
}

/// A range of non-negative integers from `start` up to `end`.
///
/// Every value that executable code can hold has `start <= end`: the only
/// constructor, [`Interval::new`], rejects any other pair of bounds.
#[derive(Clone, Copy, Debug, PartialEq, Eq, Structural)]
pub struct Interval {
    start: usize,
    end: usize,
}

impl View for Interval {
    type V = Bounds;

    closed spec fn view(&self) -> Bounds {
        Bounds { start: self.start as nat, end: self.end as nat }
    }
}

impl Interval {
    /// The invariant of every executable value: the bounds are in order.
    #[verifier::type_invariant]
    pub open spec fn wf(self) -> bool {
        self@.start <= self@.end
    }

    /// The length of the interval, `end - start`.
    pub open spec fn spec_length(self) -> int {
        self@.end - self@.start
    }

    /// Builds the interval with the given bounds, or `None` when `end < start`.
    pub fn new(start: usize, end: usize) -> (r: Option<Interval>)
        ensures
            r.is_some() <==> start <= end,
            r matches Some(i) ==> i@.start == start && i@.end == end,
    {
        if start <= end {
            Some(Interval { start, end })
        } else {
            None
        }
    }

    /// The lower bound.
    pub fn start(&self) -> (r: usize)
        ensures
            r == self@.start,
    {
        self.start
    }

    /// The upper bound.
    pub fn end(&self) -> (r: usize)
        ensures
            r == self@.end,
    {
        self.end
    }

    /// The length, `end - start`.
    pub fn length(&self) -> (r: usize)
        ensures
            r == self.spec_length(),
    {
        proof {
            use_type_invariant(self);
        }
        self.end - self.start
    }

    /// Two intervals are equal exactly when both bounds agree. Nothing else,
    /// and in particular nothing of the order, enters into equality.
    pub proof fn lemma_eq_by_bounds(a: Interval, b: Interval)
        ensures
            a == b <==> a@.start == b@.start && a@.end == b@.end,
    {
    }

    /// The order of the intervals: shorter first, and among intervals of one
    /// length the one that starts earlier first.
    pub open spec fn precedes(self, other: Interval) -> bool {
        ||| self.spec_length() < other.spec_length()
        ||| self.spec_length() == other.spec_length() && self@.start < other@.start
    }

    /// What [`Interval::cmp`] returns. It is the reverse of
    /// [`Interval::precedes`]: the interval that precedes the other one is
    /// the `Greater` of the two, so that a queue which hands out its
    /// greatest item first hands out the shortest interval first.
    pub open spec fn cmp_spec(self, other: Interval) -> Ordering {
        if self.precedes(other) {
            Ordering::Greater
        } else if other.precedes(self) {
            Ordering::Less
        } else {
            Ordering::Equal
        }
    }

    /// Compares two intervals for a queue that hands out its greatest item
    /// first: lengths are compared with the arguments in reversed roles, and
    /// on equal lengths the starts are, again in reversed roles.
    pub fn cmp(&self, other: &Interval) -> (r: Ordering)
        ensures
            r == self.cmp_spec(*other),
    {
        proof {
            use_type_invariant(self);
            use_type_invariant(other);
        }
        let mine = self.length();
        let theirs = other.length();
        if theirs < mine {
            Ordering::Less
        } else if theirs > mine {
            Ordering::Greater
        } else if other.start < self.start {
            Ordering::Less
        } else if other.start > self.start {
            Ordering::Greater
        } else {
            Ordering::Equal
        }
    }
}

impl PartialOrd for Interval {
    /// Always `Some`: no two intervals are incomparable.
    fn partial_cmp(&self, other: &Interval) -> (r: Option<Ordering>) {
        Some(self.cmp(other))
    }
}

impl vstd::std_specs::cmp::PartialOrdSpecImpl for Interval {
    open spec fn obeys_partial_cmp_spec() -> bool {
        true
    }

    open spec fn partial_cmp_spec(&self, other: &Interval) -> Option<Ordering> {
        Some(self.cmp_spec(*other))
    }
}

} // verus!
