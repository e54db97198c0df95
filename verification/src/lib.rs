//! Intervals ordered by length, then by start, and a priority queue that
//! hands them out shortest first.

pub mod extract;
pub mod fixtures;
pub mod heap;
pub mod interval;
pub mod order;

pub use crate::extract::extract_in_order;
pub use crate::fixtures::TestFixtures;
pub use crate::heap::IntervalHeap;
pub use crate::interval::Bounds;
pub use crate::interval::Interval;
