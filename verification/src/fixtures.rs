//! Ready-made inputs.

use crate::interval::Bounds;
use crate::interval::Interval;
use vstd::prelude::*;

verus! {

/// Fixed sets of intervals to try the order on.
pub struct TestFixtures {}

impl TestFixtures {
    /// Three intervals, out of order: two of length 5 whose starts differ,
    /// and between them one of length 30.
    pub fn test_fixture_1() -> (v: Vec<Interval>)
        ensures
            v@.len() == 3,
            v@[0]@ == (Bounds { start: 15, end: 20 }),
            v@[1]@ == (Bounds { start: 0, end: 30 }),
            v@[2]@ == (Bounds { start: 5, end: 10 }),
    {
        let mut v: Vec<Interval> = Vec::new();
        v.push(Interval::new(15, 20).unwrap());
        v.push(Interval::new(0, 30).unwrap());
        v.push(Interval::new(5, 10).unwrap());
        v
    }
}

} // verus!
