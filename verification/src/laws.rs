//! Structural guarantees of a built store, stated once as proof functions.

use vstd::prelude::*;

use crate::context::RegInfoTable;
use crate::entities::VirtReg;
use crate::segments::ValueSegment;
use crate::virt_regs::VirtRegs;

verus! {

/// Every built virtual register owns at least one segment; the segments are
/// strictly ordered by range start and no two of them overlap.
pub proof fn lemma_segments_well_formed(s: VirtRegs, v: int)
    requires
        s.inv(),
        0 <= v < s.n_vregs(),
    ensures
        s.segs_at(v).len() >= 1,
        forall|i: int, j: int|
            0 <= i < j < s.segs_at(v).len() ==> (#[trigger] s.segs_at(v)[i]).live_range.to <= (
            #[trigger] s.segs_at(v)[j]).live_range.from,
        forall|i: int, j: int|
            0 <= i < j < s.segs_at(v).len() ==> (#[trigger] s.segs_at(v)[i]).live_range.from < (
            #[trigger] s.segs_at(v)[j]).live_range.from,
{
    assert(s.vreg_wf(v));
}

/// In a completely built store, every group is full: each member is a live
/// virtual register, member `m` carries group index `m` (so the group indices
/// are exactly `0, …, size-1`), no handle appears twice, all members share
/// one class, and the member count is exactly what that class requires.
pub proof fn lemma_group_members_complete(s: VirtRegs, reginfo: RegInfoTable, g: int)
    requires
        s.inv(),
        s.complete(),
        s.classes_wf(reginfo),
        0 <= g < s.n_groups(),
    ensures
        s.members_at(g).len() >= 1,
        forall|m: int|
            0 <= m < s.members_at(g).len() ==> ((#[trigger] s.members_at(g)[m]).0 as int)
                < s.n_vregs(),
        forall|m: int|
            0 <= m < s.members_at(g).len() ==> (s.vreg_at(
                (#[trigger] s.members_at(g)[m]).0 as int,
            ).group_index as int) == m,
        forall|m: int|
            0 <= m < s.members_at(g).len() ==> s.vreg_at(
                (#[trigger] s.members_at(g)[m]).0 as int,
            ).class == s.vreg_at(s.members_at(g)[0].0 as int).class,
        s.members_at(g).len() == reginfo.group_size_of(
            s.vreg_at(s.members_at(g)[0].0 as int).class,
        ),
        forall|m1: int, m2: int|
            0 <= m1 < m2 < s.members_at(g).len() ==> (#[trigger] s.members_at(g)[m1]) != (
            #[trigger] s.members_at(g)[m2]),
{
    assert(s.group_wf(g));
    assert(s.members_uniform(g));
    let mem = s.members_at(g);
    assert forall|m: int| 0 <= m < mem.len() implies !(#[trigger] mem[m]).is_reserved() by {}
    assert(!mem[0].is_reserved());
    assert(s.vreg_at(mem[0].0 as int).group == Some(crate::entities::VirtRegGroup(g as u32)));
    assert forall|m1: int, m2: int| 0 <= m1 < m2 < mem.len() implies (#[trigger] mem[m1]) != (
    #[trigger] mem[m2]) by {
        assert((s.vreg_at(mem[m1].0 as int).group_index as int) == m1);
        assert((s.vreg_at(mem[m2].0 as int).group_index as int) == m2);
    }
}

/// All members of a completely built group carry one and the same spill
/// weight.  Construction sets it to the minimum of the weights computed
/// independently for each member's own segments.
pub proof fn lemma_group_weight_uniform(s: VirtRegs, g: int)
    requires
        s.inv(),
        s.complete(),
        0 <= g < s.n_groups(),
    ensures
        forall|m1: int, m2: int|
            0 <= m1 < s.members_at(g).len() && 0 <= m2 < s.members_at(g).len() ==> s.vreg_at(
                (#[trigger] s.members_at(g)[m1]).0 as int,
            ).spill_weight == s.vreg_at((#[trigger] s.members_at(g)[m2]).0 as int).spill_weight,
{
    assert(s.members_uniform(g));
    assert forall|m: int|
        0 <= m < s.members_at(g).len() implies !(#[trigger] s.members_at(g)[m]).is_reserved() by {}
}

/// Between mutations, repeated non-mutating reads agree: every result of
/// `segments` and `group_members` is pinned by its contract to a view of the
/// store alone, so two reads of one store return identical content in
/// identical order.
pub proof fn lemma_reads_repeatable(
    s: VirtRegs,
    v: int,
    g: int,
    segs1: Seq<ValueSegment>,
    segs2: Seq<ValueSegment>,
    mem1: Seq<VirtReg>,
    mem2: Seq<VirtReg>,
)
    requires
        segs1 == s.segs_at(v),
        segs2 == s.segs_at(v),
        mem1 == s.members_at(g),
        mem2 == s.members_at(g),
    ensures
        segs1 == segs2,
        mem1 == mem2,
{
}

} // verus!
