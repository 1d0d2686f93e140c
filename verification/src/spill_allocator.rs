//! The one interaction this crate has with the spill allocator: before the
//! builder runs over a value set, the set's live-range union and the
//! spill-slot size of its bank are registered, so that a spill decision taken
//! later finds its slot size already fixed.

use vstd::prelude::*;

use crate::entities::ValueSet;
use crate::segments::LiveRangeSegment;

verus! {

/// One reservation: the value set, the spill-slot size of its bank, and the
/// interval spanning the whole set.
#[derive(Clone, Copy, PartialEq, Eq, Structural, Debug)]
pub struct SpillSetReservation {
    pub set: ValueSet,
    pub size: u32,
    pub range: LiveRangeSegment,
}

/// Records the per-set reservations handed over before construction; the
/// slot-placement algorithm behind it is out of this crate's scope.
#[derive(Clone, PartialEq, Eq, Debug)]
pub struct SpillAllocator {
    pub reservations: Vec<SpillSetReservation>,
}

impl SpillAllocator {
    pub fn new() -> (r: SpillAllocator)
        ensures
            r.reservations@.len() == 0,
    {
        SpillAllocator { reservations: Vec::new() }
    }

    /// Forgets all reservations of the previous function's pass.
    pub fn clear(&mut self)
        ensures
            final(self).reservations@.len() == 0,
    {
        self.reservations.clear();
    }

    /// Registers the live-range union and slot size for one value set; called
    /// exactly once per set, before the set's virtual registers are built.
    pub fn set_range(&mut self, set: ValueSet, size: u32, range: LiveRangeSegment)
        ensures
            final(self).reservations@ == old(self).reservations@.push(
                SpillSetReservation { set, size, range },
            ),
    {
        self.reservations.push(SpillSetReservation { set, size, range });
    }
}

} // verus!
