//! The upstream live-range source: one non-empty, pre-sorted segment list per
//! value set.  The bulk build drains it, transferring ownership of every set.

use vstd::prelude::*;

use crate::entities::ValueSet;
use crate::segments::ValueSegment;

verus! {

/// Segment lists produced by the liveness stage, keyed by value set, in the
/// order the sets were produced.
#[derive(Debug)]
pub struct ValueLiveRanges {
    pub value_sets: Vec<(ValueSet, Vec<ValueSegment>)>,
}

impl ValueLiveRanges {
    pub fn new() -> (r: ValueLiveRanges)
        ensures
            r.value_sets@.len() == 0,
    {
        ValueLiveRanges { value_sets: Vec::new() }
    }

    /// Hands one value set's segments over to the source.
    pub fn push_value_set(&mut self, set: ValueSet, segments: Vec<ValueSegment>)
        ensures
            final(self).value_sets@ == old(self).value_sets@.push((set, segments)),
    {
        self.value_sets.push((set, segments));
    }

    /// Takes every value set out of the source, leaving it empty; each set is
    /// yielded exactly once, in the order it was handed in.
    pub fn take_all_value_sets(&mut self) -> (r: Vec<(ValueSet, Vec<ValueSegment>)>)
        ensures
            r@ == old(self).value_sets@,
            final(self).value_sets@.len() == 0,
    {
        let mut taken: Vec<(ValueSet, Vec<ValueSegment>)> = Vec::new();
        core::mem::swap(&mut self.value_sets, &mut taken);
        taken
    }
}

} // verus!
