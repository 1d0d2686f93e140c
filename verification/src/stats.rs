//! Summary counters recorded after the bulk build; diagnostics only, with no
//! effect on allocation.

use vstd::prelude::*;

verus! {

/// Counters describing the outcome of one bulk build pass.
#[derive(Clone, Copy, PartialEq, Eq, Structural, Debug)]
pub struct Stats {
    /// Virtual registers created by the pass.
    pub initial_vregs: usize,
    /// Virtual register groups created by the pass.
    pub initial_vreg_groups: usize,
    /// Live-range segments owned by all virtual registers together.
    pub initial_vreg_segments: usize,
}

impl Stats {
    pub fn new() -> (r: Stats)
        ensures
            r.initial_vregs == 0,
            r.initial_vreg_groups == 0,
            r.initial_vreg_segments == 0,
    {
        Stats { initial_vregs: 0, initial_vreg_groups: 0, initial_vreg_segments: 0 }
    }
}

} // verus!
