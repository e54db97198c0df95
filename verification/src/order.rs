//! The laws of the order on intervals and of the comparator built on it.
//!
//! They hold of every pair of bounds, in order or not.

use crate::heap::is_first;
use crate::interval::Interval;
use std::cmp::Ordering;
use vstd::multiset::Multiset;
use vstd::prelude::*;
use vstd::std_specs::cmp::PartialOrdSpec;

verus! {

/// No interval precedes itself.
pub proof fn lemma_precedes_irreflexive(a: Interval)
    ensures
        !a.precedes(a),
{
}

/// Two intervals never precede each other.
pub proof fn lemma_precedes_asymmetric(a: Interval, b: Interval)
    requires
        a.precedes(b),
    ensures
        !b.precedes(a),
{
}

/// If `a` precedes `b` and `b` precedes `c`, then `a` precedes `c`.
pub proof fn lemma_precedes_transitive(a: Interval, b: Interval, c: Interval)
    requires
        a.precedes(b),
        b.precedes(c),
    ensures
        a.precedes(c),
{
}

/// Of any two intervals exactly one holds: the first precedes the second,
/// they are equal, or the second precedes the first.
pub proof fn lemma_precedes_trichotomy(a: Interval, b: Interval)
    ensures
        a.precedes(b) || a == b || b.precedes(a),
        !(a.precedes(b) && a == b),
        !(a == b && b.precedes(a)),
        !(a.precedes(b) && b.precedes(a)),
{
    Interval::lemma_eq_by_bounds(a, b);
}

/// Every interval equals itself, and the comparator says so.
pub proof fn lemma_eq_reflexive(a: Interval)
    ensures
        a == a,
        a.cmp_spec(a) == Ordering::Equal,
{
}

/// Among intervals of one length, the one with the smaller start precedes.
pub proof fn lemma_tie_break(a: Interval, b: Interval)
    requires
        a.spec_length() == b.spec_length(),
    ensures
        a.precedes(b) <==> a@.start < b@.start,
{
}

/// The comparator is the order in reverse: it calls `a` the greater one
/// exactly when `a` precedes `b`, and the lesser one exactly when `b`
/// precedes `a`.
pub proof fn lemma_cmp_polarity(a: Interval, b: Interval)
    ensures
        a.cmp_spec(b) == Ordering::Greater <==> a.precedes(b),
        a.cmp_spec(b) == Ordering::Less <==> b.precedes(a),
{
}

/// The comparator answers `Equal` for equal intervals and for no others.
pub proof fn lemma_cmp_equal_iff_eq(a: Interval, b: Interval)
    ensures
        a.cmp_spec(b) == Ordering::Equal <==> a == b,
{
    Interval::lemma_eq_by_bounds(a, b);
}

/// Swapping the arguments of the comparator reverses its answer.
pub proof fn lemma_cmp_antisymmetric(a: Interval, b: Interval)
    ensures
        a.cmp_spec(b) == Ordering::Less <==> b.cmp_spec(a) == Ordering::Greater,
        a.cmp_spec(b) == Ordering::Equal <==> b.cmp_spec(a) == Ordering::Equal,
        a.cmp_spec(b) == Ordering::Greater <==> b.cmp_spec(a) == Ordering::Less,
{
}

/// The comparator is transitive: two answers `Less` in a row give `Less`,
/// two answers `Greater` give `Greater`, and `Equal` passes either on.
pub proof fn lemma_cmp_transitive(a: Interval, b: Interval, c: Interval)
    ensures
        a.cmp_spec(b) == Ordering::Less && b.cmp_spec(c) == Ordering::Less ==> a.cmp_spec(c)
            == Ordering::Less,
        a.cmp_spec(b) == Ordering::Greater && b.cmp_spec(c) == Ordering::Greater ==> a.cmp_spec(c)
            == Ordering::Greater,
        a.cmp_spec(b) == Ordering::Equal ==> a.cmp_spec(c) == b.cmp_spec(c),
        b.cmp_spec(c) == Ordering::Equal ==> a.cmp_spec(c) == a.cmp_spec(b),
{
}

/// The first of a collection of intervals is its greatest item by the
/// comparator: an item that the comparator calls less than no other. This is
/// why a queue that hands out its greatest item hands out the first.
pub proof fn lemma_first_is_greatest(m: Multiset<Interval>, x: Interval)
    ensures
        is_first(m, x) <==> m.contains(x) && forall|y: Interval| #[trigger]
            m.contains(y) ==> x.cmp_spec(y) != Ordering::Less,
{
    if is_first(m, x) {
        assert forall|y: Interval| #[trigger] m.contains(y) implies x.cmp_spec(y)
            != Ordering::Less by {
            assert(!y.precedes(x));
        }
    }
    if m.contains(x) && forall|y: Interval| #[trigger]
        m.contains(y) ==> x.cmp_spec(y) != Ordering::Less {
        assert forall|y: Interval| #[trigger] m.contains(y) implies !y.precedes(x) by {
            assert(x.cmp_spec(y) != Ordering::Less);
        }
    }
}

/// No two intervals are incomparable: `partial_cmp` always has an answer,
/// and it is the comparator's.
pub proof fn lemma_always_comparable(a: Interval, b: Interval)
    ensures
        a.partial_cmp_spec(&b) == Some(a.cmp_spec(b)),
{
}

} // verus!
