//! Storage for all virtual registers of the function being compiled.
//!
//! Two append-only pools back the store: one holds the ordered segment list
//! of every virtual register, one the member list of every group.  Each owner
//! keeps a `(start, len)` descriptor into its pool, so a reset truncates the
//! pools instead of freeing one allocation per owner, and repeated passes
//! reuse the backing storage.

use vstd::prelude::*;

use crate::context::RegInfoTable;
use crate::entities::{RegClass, VirtReg, VirtRegGroup, RESERVED_INDEX};
use crate::segments::{all_nonempty, ordered_disjoint, ValueSegment};

verus! {

/// Largest number of virtual registers or groups a store may hold: every live
/// handle must fit in 32 bits and stay distinct from the reserved placeholder.
pub const MAX_ENTITIES: usize = 0xFFFF_FFFF;

/// A `(start, len)` descriptor of one owner's slice of a shared pool.
#[derive(Clone, Copy, PartialEq, Eq, Structural, Debug)]
struct CompactList {
    start: usize,
    len: usize,
}

/// Everything the store records about one virtual register.  The segment
/// list itself lives in the store's segment pool.
#[derive(Clone, Copy, PartialEq, Eq, Structural, Debug)]
pub struct VirtRegData {
    /// Register class this virtual register must be allocated from; fixed for
    /// its whole lifetime.
    pub class: RegClass,
    /// Position of this register within its group, or 0 when ungrouped.
    pub group_index: u8,
    /// The group this register belongs to, if any.
    pub group: Option<VirtRegGroup>,
    /// Whether any owned segment carries a fixed-register hint.
    pub has_fixed_hint: bool,
    /// Use density of the register; group members all carry their group's
    /// minimum.  A higher weight evicts a lower one.
    pub spill_weight: u64,
}

/// Storage for all virtual registers and groups in the function.
#[derive(Debug)]
pub struct VirtRegs {
    /// Record of every virtual register, indexed by handle.
    virt_regs: Vec<VirtRegData>,
    /// Descriptor of every register's segment list, indexed by handle.
    seg_lists: Vec<CompactList>,
    /// Pool backing every register's segment list.
    segment_pool: Vec<ValueSegment>,
    /// Member-list descriptor of every group, indexed by handle.  While a
    /// group is being built a member slot may hold the reserved placeholder;
    /// no placeholder survives once construction returns.
    groups: Vec<CompactList>,
    /// Pool backing every group's member list.
    group_pool: Vec<VirtReg>,
}

impl VirtRegs {
    /// Number of virtual registers currently defined.
    pub closed spec fn n_vregs(self) -> int {
        self.virt_regs@.len() as int
    }

    /// Number of groups currently defined.
    pub closed spec fn n_groups(self) -> int {
        self.groups@.len() as int
    }

    /// Record of the virtual register with handle index `i`.
    pub closed spec fn vreg_at(self, i: int) -> VirtRegData {
        self.virt_regs@[i]
    }

    /// Segment list of the virtual register with handle index `i`.
    pub closed spec fn segs_at(self, i: int) -> Seq<ValueSegment> {
        let d = self.seg_lists@[i];
        self.segment_pool@.subrange(d.start as int, d.start as int + d.len as int)
    }

    /// Member list of the group with handle index `g`.
    pub closed spec fn members_at(self, g: int) -> Seq<VirtReg> {
        let d = self.groups@[g];
        self.group_pool@.subrange(d.start as int, d.start as int + d.len as int)
    }

    /// Total number of segments held in the segment pool.
    pub closed spec fn n_pool_segments(self) -> int {
        self.segment_pool@.len() as int
    }

    /// Total number of member slots held in the group pool.
    pub closed spec fn n_pool_members(self) -> int {
        self.group_pool@.len() as int
    }

    /// The descriptors of both pools tile them: consecutive, in creation
    /// order, covering each pool exactly.
    pub closed spec fn pools_wf(self) -> bool {
        let n = self.virt_regs@.len() as int;
        let m = self.groups@.len() as int;
        &&& self.seg_lists@.len() == self.virt_regs@.len()
        &&& forall|i: int|
            0 <= i < n ==> (#[trigger] self.seg_lists@[i]).start as int
                + self.seg_lists@[i].len as int <= self.segment_pool@.len()
        &&& n > 0 ==> self.seg_lists@[0].start == 0
        &&& forall|i: int|
            0 <= i < n - 1 ==> (#[trigger] self.seg_lists@[i + 1]).start as int
                == self.seg_lists@[i].start as int + self.seg_lists@[i].len as int
        &&& if n == 0 {
            self.segment_pool@.len() == 0
        } else {
            self.seg_lists@[n - 1].start as int + self.seg_lists@[n - 1].len as int
                == self.segment_pool@.len()
        }
        &&& forall|g: int|
            0 <= g < m ==> (#[trigger] self.groups@[g]).start as int + self.groups@[g].len as int
                <= self.group_pool@.len()
        &&& m > 0 ==> self.groups@[0].start == 0
        &&& forall|g: int|
            0 <= g < m - 1 ==> (#[trigger] self.groups@[g + 1]).start as int == self.groups@[g].start
                as int + self.groups@[g].len as int
        &&& if m == 0 {
            self.group_pool@.len() == 0
        } else {
            self.groups@[m - 1].start as int + self.groups@[m - 1].len as int
                == self.group_pool@.len()
        }
    }

    /// Structural well-formedness of one virtual register: a non-empty,
    /// ordered, disjoint segment list, and a coherent group back-reference.
    pub open spec fn vreg_wf(self, i: int) -> bool {
        let d = self.vreg_at(i);
        &&& self.segs_at(i).len() >= 1
        &&& all_nonempty(self.segs_at(i))
        &&& ordered_disjoint(self.segs_at(i))
        &&& match d.group {
            Some(g) => {
                &&& (g.0 as int) < self.n_groups()
                &&& (d.group_index as int) < self.members_at(g.0 as int).len()
                &&& (self.members_at(g.0 as int)[d.group_index as int] == VirtReg(i as u32)
                    || self.members_at(g.0 as int)[d.group_index as int].is_reserved())
            },
            None => d.group_index == 0,
        }
    }

    /// Structural well-formedness of one group: at least one member slot, and
    /// every built member points back at its slot.
    pub open spec fn group_wf(self, g: int) -> bool {
        let mem = self.members_at(g);
        &&& mem.len() >= 1
        &&& forall|m: int|
            0 <= m < mem.len() ==> ((#[trigger] mem[m]).is_reserved() || {
                &&& (mem[m].0 as int) < self.n_vregs()
                &&& self.vreg_at(mem[m].0 as int).group == Some(VirtRegGroup(g as u32))
                &&& (self.vreg_at(mem[m].0 as int).group_index as int) == m
            })
    }

    /// All built members of group `g` share one spill weight and one class.
    pub open spec fn members_uniform(self, g: int) -> bool {
        let mem = self.members_at(g);
        forall|m1: int, m2: int|
            0 <= m1 < mem.len() && 0 <= m2 < mem.len() && !(#[trigger] mem[m1]).is_reserved()
                && !(#[trigger] mem[m2]).is_reserved() ==> (self.vreg_at(
                mem[m1].0 as int,
            ).spill_weight == self.vreg_at(mem[m2].0 as int).spill_weight && self.vreg_at(
                mem[m1].0 as int,
            ).class == self.vreg_at(mem[m2].0 as int).class)
    }

    /// Invariant of the store.  It holds after every public operation; during
    /// incremental construction a group may still contain reserved member
    /// slots, which [`VirtRegs::complete`] rules out.
    pub open spec fn inv(self) -> bool {
        &&& self.pools_wf()
        &&& self.n_vregs() <= MAX_ENTITIES as int
        &&& self.n_groups() <= MAX_ENTITIES as int
        &&& forall|i: int| 0 <= i < self.n_vregs() ==> #[trigger] self.vreg_wf(i)
        &&& forall|g: int| 0 <= g < self.n_groups() ==> #[trigger] self.group_wf(g)
        &&& forall|g: int| 0 <= g < self.n_groups() ==> #[trigger] self.members_uniform(g)
    }

    /// No group member slot still holds the not-yet-built placeholder.
    pub open spec fn complete(self) -> bool {
        forall|g: int, m: int|
            0 <= g < self.n_groups() && 0 <= m < self.members_at(g).len() ==> !(
            #[trigger] self.members_at(g)[m]).is_reserved()
    }

    /// Class coherence against a register-file description: every register's
    /// class is known, a grouped register's group has exactly the member
    /// count its class requires, and an ungrouped register's class requires a
    /// single register.
    pub open spec fn classes_wf(self, reginfo: RegInfoTable) -> bool {
        forall|i: int|
            0 <= i < self.n_vregs() ==> {
                &&& reginfo.valid_class((#[trigger] self.vreg_at(i)).class)
                &&& match self.vreg_at(i).group {
                    Some(g) => self.members_at(g.0 as int).len() == reginfo.group_size_of(
                        self.vreg_at(i).class,
                    ),
                    None => reginfo.group_size_of(self.vreg_at(i).class) == 1,
                }
            }
    }

    /// Produces an empty store.
    pub fn new() -> (r: VirtRegs)
        ensures
            r.inv(),
            r.complete(),
            r.n_vregs() == 0,
            r.n_groups() == 0,
            r.n_pool_segments() == 0,
            r.n_pool_members() == 0,
    {
        VirtRegs {
            virt_regs: Vec::new(),
            seg_lists: Vec::new(),
            segment_pool: Vec::new(),
            groups: Vec::new(),
            group_pool: Vec::new(),
        }
    }

    /// Resets all tables and pools to empty without releasing their backing
    /// storage, so the next pass allocates nothing in the steady state.
    pub fn clear(&mut self)
        ensures
            final(self).inv(),
            final(self).complete(),
            final(self).n_vregs() == 0,
            final(self).n_groups() == 0,
            final(self).n_pool_segments() == 0,
            final(self).n_pool_members() == 0,
    {
        self.virt_regs.clear();
        self.seg_lists.clear();
        self.segment_pool.clear();
        self.groups.clear();
        self.group_pool.clear();
    }

    /// Number of virtual registers currently defined.
    pub fn num_virt_regs(&self) -> (r: usize)
        ensures
            r as int == self.n_vregs(),
    {
        self.virt_regs.len()
    }

    /// Number of groups currently defined.
    pub fn num_groups(&self) -> (r: usize)
        ensures
            r as int == self.n_groups(),
    {
        self.groups.len()
    }

    /// All currently live virtual-register handles, in creation order.
    pub fn virt_regs(&self) -> (r: Vec<VirtReg>)
        requires
            self.inv(),
        ensures
            r@.len() == self.n_vregs(),
            forall|i: int| 0 <= i < r@.len() ==> (#[trigger] r@[i]) == VirtReg(i as u32),
    {
        let n = self.virt_regs.len();
        let mut r: Vec<VirtReg> = Vec::new();
        let mut i: usize = 0;
        while i < n
            invariant
                i <= n,
                n as int == self.n_vregs(),
                self.inv(),
                r@.len() == i,
                forall|j: int| 0 <= j < i ==> (#[trigger] r@[j]) == VirtReg(j as u32),
            decreases n - i,
        {
            r.push(VirtReg(i as u32));
            i += 1;
        }
        r
    }

    /// All currently live group handles, in creation order.
    pub fn groups(&self) -> (r: Vec<VirtRegGroup>)
        requires
            self.inv(),
        ensures
            r@.len() == self.n_groups(),
            forall|g: int| 0 <= g < r@.len() ==> (#[trigger] r@[g]) == VirtRegGroup(g as u32),
    {
        let n = self.groups.len();
        let mut r: Vec<VirtRegGroup> = Vec::new();
        let mut i: usize = 0;
        while i < n
            invariant
                i <= n,
                n as int == self.n_groups(),
                self.inv(),
                r@.len() == i,
                forall|j: int| 0 <= j < i ==> (#[trigger] r@[j]) == VirtRegGroup(j as u32),
            decreases n - i,
        {
            r.push(VirtRegGroup(i as u32));
            i += 1;
        }
        r
    }

    /// Sorted, pairwise-disjoint segment list of a virtual register.  The
    /// slice borrows from the pool and is invalidated by the next mutation.
    pub fn segments(&self, vreg: VirtReg) -> (r: &[ValueSegment])
        requires
            self.inv(),
            (vreg.0 as int) < self.n_vregs(),
        ensures
            r@ == self.segs_at(vreg.0 as int),
    {
        let d = self.seg_lists[vreg.0 as usize];
        let pool_len = self.segment_pool.len();
        proof {
            assert(self.seg_lists@[vreg.0 as int].start as int + self.seg_lists@[vreg.0 as int].len
                as int <= self.segment_pool@.len());
        }
        vstd::slice::slice_subrange(self.segment_pool.as_slice(), d.start, d.start + d.len)
    }

    /// Ordered member list of a group.  The slice borrows from the pool and
    /// is invalidated by the next mutation.
    pub fn group_members(&self, group: VirtRegGroup) -> (r: &[VirtReg])
        requires
            self.inv(),
            (group.0 as int) < self.n_groups(),
        ensures
            r@ == self.members_at(group.0 as int),
    {
        let d = self.groups[group.0 as usize];
        let pool_len = self.group_pool.len();
        proof {
            assert(self.groups@[group.0 as int].start as int + self.groups@[group.0 as int].len
                as int <= self.group_pool@.len());
        }
        vstd::slice::slice_subrange(self.group_pool.as_slice(), d.start, d.start + d.len)
    }

    /// Read access to the record of one virtual register.
    pub fn vreg_data(&self, vreg: VirtReg) -> (r: &VirtRegData)
        requires
            (vreg.0 as int) < self.n_vregs(),
        ensures
            *r == self.vreg_at(vreg.0 as int),
    {
        &self.virt_regs[vreg.0 as usize]
    }

    /// Appends a group whose `size` member slots all hold the reserved
    /// placeholder; construction overwrites them one by one.
    pub(crate) fn push_group(&mut self, size: usize) -> (g: VirtRegGroup)
        requires
            old(self).inv(),
            1 <= size,
            old(self).n_groups() < MAX_ENTITIES as int,
            old(self).n_pool_members() + size <= usize::MAX as int,
        ensures
            final(self).inv(),
            g == VirtRegGroup(old(self).n_groups() as u32),
            final(self).n_groups() == old(self).n_groups() + 1,
            final(self).members_at(old(self).n_groups()) == Seq::new(
                size as nat,
                |m: int| VirtReg(RESERVED_INDEX),
            ),
            final(self).n_vregs() == old(self).n_vregs(),
            final(self).n_pool_segments() == old(self).n_pool_segments(),
            final(self).n_pool_members() == old(self).n_pool_members() + size,
            forall|i: int|
                0 <= i < old(self).n_vregs() ==> #[trigger] final(self).vreg_at(i) == old(
                    self,
                ).vreg_at(i),
            forall|i: int|
                0 <= i < old(self).n_vregs() ==> #[trigger] final(self).segs_at(i) == old(
                    self,
                ).segs_at(i),
            forall|g2: int|
                0 <= g2 < old(self).n_groups() ==> #[trigger] final(self).members_at(g2) == old(
                    self,
                ).members_at(g2),
    {
        let handle = VirtRegGroup(self.groups.len() as u32);
        let start = self.group_pool.len();
        let mut m: usize = 0;
        while m < size
            invariant
                m <= size,
                start + size <= usize::MAX,
                self.virt_regs@ == old(self).virt_regs@,
                self.seg_lists@ == old(self).seg_lists@,
                self.segment_pool@ == old(self).segment_pool@,
                self.groups@ == old(self).groups@,
                start as int == old(self).group_pool@.len(),
                self.group_pool@.len() == start + m,
                forall|j: int|
                    0 <= j < start ==> #[trigger] self.group_pool@[j] == old(self).group_pool@[j],
                forall|j: int|
                    start <= j < start + m ==> (#[trigger] self.group_pool@[j]).is_reserved(),
            decreases size - m,
        {
            self.group_pool.push(VirtReg::reserved());
            m += 1;
        }
        self.groups.push(CompactList { start, len: size });
        proof {
            let s0 = *old(self);
            let s1 = *self;
            let gi = s0.n_groups();
            assert(s1.groups@ == s0.groups@.push(
                CompactList { start: start, len: size },
            ));
            assert forall|g2: int| 0 <= g2 < gi implies #[trigger] s1.members_at(g2)
                == s0.members_at(g2) by {
                assert(s1.groups@[g2] == s0.groups@[g2]);
                assert(s0.groups@[g2].start as int + s0.groups@[g2].len as int
                    <= s0.group_pool@.len());
                assert(s1.members_at(g2) =~= s0.members_at(g2));
            }
            assert(s1.pools_wf()) by {
                assert(s1.groups@[gi] == CompactList { start: start, len: size });
                assert forall|g2: int|
                    0 <= g2 < s1.groups@.len() implies (#[trigger] s1.groups@[g2]).start as int
                    + s1.groups@[g2].len as int <= s1.group_pool@.len() by {
                    if g2 < gi {
                        assert(s1.groups@[g2] == s0.groups@[g2]);
                    }
                }
                assert forall|g2: int|
                    0 <= g2 < s1.groups@.len() - 1 implies (#[trigger] s1.groups@[g2 + 1]).start
                    as int == s1.groups@[g2].start as int + s1.groups@[g2].len as int by {
                    if g2 + 1 < gi {
                        assert(s1.groups@[g2] == s0.groups@[g2]);
                        assert(s1.groups@[g2 + 1] == s0.groups@[g2 + 1]);
                    } else {
                        assert(g2 + 1 == gi);
                        if gi > 0 {
                            assert(s1.groups@[g2] == s0.groups@[g2]);
                        }
                    }
                }
            }
            assert forall|i: int| 0 <= i < s0.n_vregs() implies #[trigger] s1.segs_at(i)
                == s0.segs_at(i) by {
                assert(s1.segs_at(i) =~= s0.segs_at(i));
            }
            assert(s1.members_at(gi) =~= Seq::new(size as nat, |m: int| VirtReg(RESERVED_INDEX)));
            assert forall|i: int| 0 <= i < s1.n_vregs() implies #[trigger] s1.vreg_wf(i) by {
                assert(s0.vreg_wf(i));
                assert(s1.vreg_at(i) == s0.vreg_at(i));
                match s1.vreg_at(i).group {
                    Some(g2) => {
                        assert(s1.members_at(g2.0 as int) == s0.members_at(g2.0 as int));
                    },
                    None => {},
                }
                lemma_vreg_preserved(s0, s1, i);
            }
            assert forall|g2: int| 0 <= g2 < s1.n_groups() implies #[trigger] s1.group_wf(g2) by {
                if g2 < gi {
                    lemma_group_preserved(s0, s1, g2);
                } else {
                    assert(forall|m2: int|
                        0 <= m2 < s1.members_at(g2).len() ==> (
                        #[trigger] s1.members_at(g2)[m2]).is_reserved());
                }
            }
            assert forall|g2: int| 0 <= g2 < s1.n_groups() implies #[trigger] s1.members_uniform(
                g2,
            ) by {
                if g2 < gi {
                    lemma_group_preserved(s0, s1, g2);
                } else {
                    assert(forall|m2: int|
                        0 <= m2 < s1.members_at(g2).len() ==> (
                        #[trigger] s1.members_at(g2)[m2]).is_reserved());
                }
            }
        }
        handle
    }

    /// Appends one virtual register owning the given segments.  When it joins
    /// a group, its slot must still hold the placeholder and its weight must
    /// agree with the members already built.
    pub(crate) fn push_vreg(
        &mut self,
        class: RegClass,
        group_index: u8,
        group: Option<VirtRegGroup>,
        has_fixed_hint: bool,
        spill_weight: u64,
        segs: &Vec<ValueSegment>,
    ) -> (v: VirtReg)
        requires
            old(self).inv(),
            segs@.len() >= 1,
            all_nonempty(segs@),
            ordered_disjoint(segs@),
            old(self).n_vregs() < MAX_ENTITIES as int,
            old(self).n_pool_segments() + segs@.len() <= usize::MAX as int,
            match group {
                Some(g) => {
                    &&& (g.0 as int) < old(self).n_groups()
                    &&& (group_index as int) < old(self).members_at(g.0 as int).len()
                    &&& old(self).members_at(g.0 as int)[group_index as int].is_reserved()
                    &&& forall|m: int|
                        0 <= m < old(self).members_at(g.0 as int).len() && !(#[trigger] old(
                            self,
                        ).members_at(g.0 as int)[m]).is_reserved() ==> (old(self).vreg_at(
                            old(self).members_at(g.0 as int)[m].0 as int,
                        ).spill_weight == spill_weight && old(self).vreg_at(
                            old(self).members_at(g.0 as int)[m].0 as int,
                        ).class == class)
                },
                None => group_index == 0,
            },
        ensures
            final(self).inv(),
            v == VirtReg(old(self).n_vregs() as u32),
            final(self).n_vregs() == old(self).n_vregs() + 1,
            final(self).n_groups() == old(self).n_groups(),
            final(self).n_pool_segments() == old(self).n_pool_segments() + segs@.len(),
            final(self).n_pool_members() == old(self).n_pool_members(),
            final(self).vreg_at(old(self).n_vregs()).class == class,
            final(self).vreg_at(old(self).n_vregs()).group_index == group_index,
            final(self).vreg_at(old(self).n_vregs()).group == group,
            final(self).vreg_at(old(self).n_vregs()).has_fixed_hint == has_fixed_hint,
            final(self).vreg_at(old(self).n_vregs()).spill_weight == spill_weight,
            final(self).segs_at(old(self).n_vregs()) == segs@,
            forall|i: int|
                0 <= i < old(self).n_vregs() ==> #[trigger] final(self).vreg_at(i) == old(
                    self,
                ).vreg_at(i),
            forall|i: int|
                0 <= i < old(self).n_vregs() ==> #[trigger] final(self).segs_at(i) == old(
                    self,
                ).segs_at(i),
            forall|g2: int|
                0 <= g2 < old(self).n_groups() ==> #[trigger] final(self).members_at(g2) == old(
                    self,
                ).members_at(g2),
    {
        let handle = VirtReg(self.virt_regs.len() as u32);
        let start = self.segment_pool.len();
        let count = segs.len();
        let mut j: usize = 0;
        while j < count
            invariant
                j <= count,
                count == segs@.len(),
                start + count <= usize::MAX,
                self.virt_regs@ == old(self).virt_regs@,
                self.seg_lists@ == old(self).seg_lists@,
                self.groups@ == old(self).groups@,
                self.group_pool@ == old(self).group_pool@,
                start as int == old(self).segment_pool@.len(),
                self.segment_pool@.len() == start + j,
                forall|t: int|
                    0 <= t < start ==> #[trigger] self.segment_pool@[t] == old(
                        self,
                    ).segment_pool@[t],
                forall|t: int| 0 <= t < j ==> #[trigger] self.segment_pool@[start + t] == segs@[t],
            decreases count - j,
        {
            self.segment_pool.push(segs[j]);
            j += 1;
        }
        self.seg_lists.push(CompactList { start, len: count });
        self.virt_regs.push(
            VirtRegData { class, group_index, group, has_fixed_hint, spill_weight },
        );
        proof {
            let s0 = *old(self);
            let s1 = *self;
            let ni = s0.n_vregs();
            assert(s1.seg_lists@ == s0.seg_lists@.push(CompactList { start: start, len: count }));
            assert(s1.seg_lists@[ni] == CompactList { start: start, len: count });
            assert forall|i: int| 0 <= i < ni implies #[trigger] s1.segs_at(i) == s0.segs_at(
                i,
            ) by {
                assert(s1.seg_lists@[i] == s0.seg_lists@[i]);
                assert(s0.seg_lists@[i].start as int + s0.seg_lists@[i].len as int
                    <= s0.segment_pool@.len());
                assert(s1.segs_at(i) =~= s0.segs_at(i));
            }
            assert forall|g2: int| 0 <= g2 < s0.n_groups() implies #[trigger] s1.members_at(g2)
                == s0.members_at(g2) by {
                assert(s1.members_at(g2) =~= s0.members_at(g2));
            }
            assert(s1.segment_pool@.len() == start + count);
            assert(s1.segs_at(ni).len() == count);
            assert(forall|t: int| 0 <= t < count ==> s1.segment_pool@[start + t] == segs@[t]);
            assert forall|t: int| 0 <= t < count implies s1.segs_at(ni)[t] == segs@[t] by {
                assert(s1.segs_at(ni)[t] == s1.segment_pool@[start + t]);
            }
            assert(s1.segs_at(ni) =~= segs@);
            assert(s1.pools_wf()) by {
                assert forall|i: int|
                    0 <= i < s1.seg_lists@.len() implies (#[trigger] s1.seg_lists@[i]).start as int
                    + s1.seg_lists@[i].len as int <= s1.segment_pool@.len() by {
                    if i < ni {
                        assert(s1.seg_lists@[i] == s0.seg_lists@[i]);
                        assert(s0.seg_lists@[i].start as int + s0.seg_lists@[i].len as int
                            <= s0.segment_pool@.len());
                    }
                }
                assert forall|i: int|
                    0 <= i < s1.seg_lists@.len() - 1 implies (#[trigger] s1.seg_lists@[i
                    + 1]).start as int == s1.seg_lists@[i].start as int + s1.seg_lists@[i].len
                    as int by {
                    if i + 1 < ni {
                        assert(s1.seg_lists@[i] == s0.seg_lists@[i]);
                        assert(s1.seg_lists@[i + 1] == s0.seg_lists@[i + 1]);
                    } else {
                        assert(i + 1 == ni);
                        if ni > 0 {
                            assert(s1.seg_lists@[i] == s0.seg_lists@[i]);
                        }
                    }
                }
            }
            assert forall|i: int| 0 <= i < s1.n_vregs() implies #[trigger] s1.vreg_wf(i) by {
                if i < ni {
                    assert(s0.vreg_wf(i));
                    assert(s1.vreg_at(i) == s0.vreg_at(i));
                    match s0.vreg_at(i).group {
                        Some(g2) => {
                            assert(s1.members_at(g2.0 as int) == s0.members_at(g2.0 as int));
                        },
                        None => {},
                    }
                    lemma_vreg_preserved(s0, s1, i);
                } else {
                    assert(s1.vreg_at(i).group == group);
                    match group {
                        Some(g2) => {
                            assert(s1.members_at(g2.0 as int) == s0.members_at(g2.0 as int));
                            assert(s1.members_at(g2.0 as int)[group_index as int].is_reserved());
                        },
                        None => {},
                    }
                }
            }
            assert forall|g2: int| 0 <= g2 < s1.n_groups() implies #[trigger] s1.group_wf(g2) by {
                assert(s1.members_at(g2) == s0.members_at(g2));
                lemma_group_preserved(s0, s1, g2);
            }
            assert forall|g2: int| 0 <= g2 < s1.n_groups() implies #[trigger] s1.members_uniform(
                g2,
            ) by {
                assert(s1.members_at(g2) == s0.members_at(g2));
                lemma_group_preserved(s0, s1, g2);
            }
        }
        handle
    }

    /// Overwrites the reserved placeholder in member slot `m` of group `g`
    /// with the just-built member `v`.
    pub(crate) fn set_group_member(&mut self, g: VirtRegGroup, m: usize, v: VirtReg)
        requires
            old(self).inv(),
            (g.0 as int) < old(self).n_groups(),
            (m as int) < old(self).members_at(g.0 as int).len(),
            old(self).members_at(g.0 as int)[m as int].is_reserved(),
            (v.0 as int) < old(self).n_vregs(),
            old(self).vreg_at(v.0 as int).group == Some(g),
            old(self).vreg_at(v.0 as int).group_index as int == m as int,
            forall|i: int|
                0 <= i < old(self).n_vregs() && i != v.0 as int ==> !((#[trigger] old(
                    self,
                ).vreg_at(i)).group == Some(g) && old(self).vreg_at(i).group_index as int
                    == m as int),
            forall|m2: int|
                0 <= m2 < old(self).members_at(g.0 as int).len() && !(#[trigger] old(
                    self,
                ).members_at(g.0 as int)[m2]).is_reserved() ==> (old(self).vreg_at(
                    old(self).members_at(g.0 as int)[m2].0 as int,
                ).spill_weight == old(self).vreg_at(v.0 as int).spill_weight && old(self).vreg_at(
                    old(self).members_at(g.0 as int)[m2].0 as int,
                ).class == old(self).vreg_at(v.0 as int).class),
        ensures
            final(self).inv(),
            final(self).n_vregs() == old(self).n_vregs(),
            final(self).n_groups() == old(self).n_groups(),
            final(self).n_pool_segments() == old(self).n_pool_segments(),
            final(self).n_pool_members() == old(self).n_pool_members(),
            final(self).members_at(g.0 as int) == old(self).members_at(g.0 as int).update(
                m as int,
                v,
            ),
            forall|i: int|
                0 <= i < old(self).n_vregs() ==> #[trigger] final(self).vreg_at(i) == old(
                    self,
                ).vreg_at(i),
            forall|i: int|
                0 <= i < old(self).n_vregs() ==> #[trigger] final(self).segs_at(i) == old(
                    self,
                ).segs_at(i),
            forall|g2: int|
                0 <= g2 < old(self).n_groups() && g2 != g.0 as int ==> #[trigger] final(self).members_at(g2) == old(self).members_at(g2),
    {
        let d = self.groups[g.0 as usize];
        let pool_len = self.group_pool.len();
        proof {
            assert(old(self).groups@[g.0 as int].start as int + old(self).groups@[g.0 as int].len
                as int <= old(self).group_pool@.len());
            assert(old(self).members_at(g.0 as int).len() == d.len as int);
        }
        let idx = d.start + m;
        self.group_pool[idx] = v;
        proof {
            let s0 = *old(self);
            let s1 = *self;
            let gi = g.0 as int;
            assert(s1.group_pool@ == s0.group_pool@.update(idx as int, v));
            assert(s1.group_pool@.len() == s0.group_pool@.len());
            assert(s1.pools_wf());
            assert(!v.is_reserved());
            assert forall|i: int| 0 <= i < s0.n_vregs() implies #[trigger] s1.segs_at(i)
                == s0.segs_at(i) by {
                assert(s1.segs_at(i) =~= s0.segs_at(i));
            }
            assert forall|g2: int| 0 <= g2 < s0.n_groups() && g2 != gi implies #[trigger] s1.members_at(
                g2,
            ) == s0.members_at(g2) by {
                assert(s0.group_wf(g2));
                if g2 < gi {
                    assert(s0.groups@[g2].start as int + s0.groups@[g2].len as int
                        <= s0.groups@[gi].start as int) by {
                        lemma_group_starts_sorted(s0, g2, gi);
                    }
                } else {
                    assert(s0.groups@[gi].start as int + s0.groups@[gi].len as int
                        <= s0.groups@[g2].start as int) by {
                        lemma_group_starts_sorted(s0, gi, g2);
                    }
                }
                assert(s1.members_at(g2) =~= s0.members_at(g2));
            }
            assert(s1.members_at(gi) =~= s0.members_at(gi).update(m as int, v));
            assert forall|i: int| 0 <= i < s1.n_vregs() implies #[trigger] s1.vreg_wf(i) by {
                assert(s0.vreg_wf(i));
                assert(s1.vreg_at(i) == s0.vreg_at(i));
                match s1.vreg_at(i).group {
                    Some(g2) => {
                        if g2.0 as int == gi {
                            if s1.vreg_at(i).group_index as int == m as int {
                                assert(i == v.0 as int);
                            } else {
                                assert(s1.members_at(gi)[s1.vreg_at(i).group_index as int]
                                    == s0.members_at(gi)[s0.vreg_at(i).group_index as int]);
                            }
                        } else {
                            assert(s1.members_at(g2.0 as int) == s0.members_at(g2.0 as int));
                        }
                    },
                    None => {},
                }
            }
            assert forall|g2: int| 0 <= g2 < s1.n_groups() implies #[trigger] s1.group_wf(g2) by {
                assert(s0.group_wf(g2));
                if g2 != gi {
                    assert(s1.members_at(g2) == s0.members_at(g2));
                    lemma_group_preserved(s0, s1, g2);
                } else {
                    assert forall|m2: int| 0 <= m2 < s1.members_at(g2).len() implies ((
                    #[trigger] s1.members_at(g2)[m2]).is_reserved() || {
                        &&& (s1.members_at(g2)[m2].0 as int) < s1.n_vregs()
                        &&& s1.vreg_at(s1.members_at(g2)[m2].0 as int).group == Some(
                            VirtRegGroup(g2 as u32),
                        )
                        &&& (s1.vreg_at(s1.members_at(g2)[m2].0 as int).group_index as int) == m2
                    }) by {
                        if m2 == m as int {
                            assert(s1.members_at(g2)[m2] == v);
                        } else {
                            assert(s1.members_at(g2)[m2] == s0.members_at(g2)[m2]);
                        }
                    }
                }
            }
            assert forall|g2: int| 0 <= g2 < s1.n_groups() implies #[trigger] s1.members_uniform(
                g2,
            ) by {
                assert(s0.members_uniform(g2));
                if g2 != gi {
                    assert(s1.members_at(g2) == s0.members_at(g2));
                    lemma_group_preserved(s0, s1, g2);
                } else {
                    assert forall|ma: int, mb: int|
                        0 <= ma < s1.members_at(g2).len() && 0 <= mb < s1.members_at(g2).len()
                            && !(#[trigger] s1.members_at(g2)[ma]).is_reserved() && !(
                        #[trigger] s1.members_at(g2)[mb]).is_reserved() implies (s1.vreg_at(
                        s1.members_at(g2)[ma].0 as int,
                    ).spill_weight == s1.vreg_at(s1.members_at(g2)[mb].0 as int).spill_weight
                        && s1.vreg_at(s1.members_at(g2)[ma].0 as int).class == s1.vreg_at(
                        s1.members_at(g2)[mb].0 as int,
                    ).class) by {
                        let wa = s1.vreg_at(s1.members_at(g2)[ma].0 as int).spill_weight;
                        let wv = s0.vreg_at(v.0 as int).spill_weight;
                        if ma == m as int {
                            assert(wa == wv);
                        } else {
                            assert(s1.members_at(g2)[ma] == s0.members_at(g2)[ma]);
                        }
                        if mb == m as int {
                        } else {
                            assert(s1.members_at(g2)[mb] == s0.members_at(g2)[mb]);
                        }
                    }
                }
            }
        }
    }

    /// Total number of segments across all virtual registers; because the
    /// descriptors tile the segment pool, the per-register counts add up to
    /// the pool's length.
    pub(crate) fn total_segment_count(&self) -> (r: usize)
        requires
            self.inv(),
        ensures
            r as int == self.n_pool_segments(),
    {
        let n = self.virt_regs.len();
        let pool_len = self.segment_pool.len();
        let mut acc: usize = 0;
        let mut i: usize = 0;
        while i < n
            invariant
                i <= n,
                n as int == self.n_vregs(),
                pool_len as int == self.n_pool_segments(),
                self.inv(),
                acc as int == if (i as int) < self.n_vregs() {
                    self.seg_lists@[i as int].start as int
                } else {
                    self.n_pool_segments()
                },
            decreases n - i,
        {
            proof {
                assert(self.seg_lists@[i as int].start as int + self.seg_lists@[i as int].len
                    as int <= self.segment_pool@.len());
            }
            acc = acc + self.seg_lists[i].len;
            i += 1;
        }
        acc
    }
}

/// The store's counts are counts: none is ever negative.
pub proof fn lemma_counts_nonneg(s: VirtRegs)
    ensures
        s.n_vregs() >= 0,
        s.n_groups() >= 0,
        s.n_pool_segments() >= 0,
        s.n_pool_members() >= 0,
{
}

/// One line of the diagnostic dump: the record of a virtual register with its
/// segments, or a group with its member list.
#[derive(Clone, PartialEq, Eq, Debug)]
pub enum DumpLine {
    Reg { vreg: VirtReg, class: RegClass, spill_weight: u64, segments: Vec<ValueSegment> },
    Group { group: VirtRegGroup, members: Vec<VirtReg> },
}

/// Handle index a register dump line reports, or -1 for a group line.
pub open spec fn dump_reg_index(line: DumpLine) -> int {
    match line {
        DumpLine::Reg { vreg, .. } => vreg.0 as int,
        DumpLine::Group { .. } => -1,
    }
}

/// Handle index a group dump line reports, or -1 for a register line.
pub open spec fn dump_group_index(line: DumpLine) -> int {
    match line {
        DumpLine::Reg { .. } => -1,
        DumpLine::Group { group, .. } => group.0 as int,
    }
}

impl VirtRegs {
    /// Emits, for every virtual register the filter selects, its record and
    /// segments, and for every group whose first member the filter selects,
    /// its member list — register lines first, each section in handle order,
    /// one line per entity.  Purely observational: the store is not changed,
    /// and a filter that never selects yields no lines at all.
    #[verifier::loop_isolation(false)]
    pub fn dump<F: Fn(VirtReg) -> bool>(&self, filter: F) -> (r: Vec<DumpLine>)
        requires
            self.inv(),
            forall|v: VirtReg| call_requires(filter, (v,)),
        ensures
            forall|j: int|
                0 <= j < r@.len() ==> match #[trigger] r@[j] {
                    DumpLine::Reg { vreg, class, spill_weight, segments } => {
                        &&& (vreg.0 as int) < self.n_vregs()
                        &&& class == self.vreg_at(vreg.0 as int).class
                        &&& spill_weight == self.vreg_at(vreg.0 as int).spill_weight
                        &&& segments@ == self.segs_at(vreg.0 as int)
                        &&& call_ensures(filter, (vreg,), true)
                    },
                    DumpLine::Group { group, members } => {
                        &&& (group.0 as int) < self.n_groups()
                        &&& members@ == self.members_at(group.0 as int)
                        &&& members@.len() >= 1
                        &&& call_ensures(filter, (members@[0],), true)
                    },
                },
            forall|v: int|
                0 <= v < self.n_vregs() ==> (exists|j: int|
                    0 <= j < r@.len() && dump_reg_index(#[trigger] r@[j]) == v)
                    || #[trigger] call_ensures(filter, (VirtReg(v as u32),), false),
            forall|g: int|
                0 <= g < self.n_groups() ==> (exists|j: int|
                    0 <= j < r@.len() && dump_group_index(#[trigger] r@[j]) == g)
                    || #[trigger] call_ensures(filter, (self.members_at(g)[0],), false),
            forall|j1: int, j2: int|
                0 <= j1 < j2 < r@.len() && (#[trigger] r@[j1]) is Group ==> (#[trigger] r@[j2])
                    is Group,
            forall|j1: int, j2: int|
                0 <= j1 < j2 < r@.len() && (#[trigger] r@[j1]) is Reg && (#[trigger] r@[j2])
                    is Reg ==> dump_reg_index(r@[j1]) < dump_reg_index(r@[j2]),
            forall|j1: int, j2: int|
                0 <= j1 < j2 < r@.len() && (#[trigger] r@[j1]) is Group && (#[trigger] r@[j2])
                    is Group ==> dump_group_index(r@[j1]) < dump_group_index(r@[j2]),
            (forall|v: VirtReg, b: bool| call_ensures(filter, (v,), b) ==> !b) ==> r@.len() == 0,
    {
        let mut r: Vec<DumpLine> = Vec::new();
        let n = self.virt_regs.len();
        let mut v: usize = 0;
        while v < n
            invariant
                v <= n,
                forall|j: int|
                    0 <= j < r@.len() ==> (#[trigger] r@[j]) is Reg,
                forall|j: int|
                    0 <= j < r@.len() ==> match #[trigger] r@[j] {
                        DumpLine::Reg { vreg, class, spill_weight, segments } => {
                            &&& (vreg.0 as int) < self.n_vregs()
                            &&& class == self.vreg_at(vreg.0 as int).class
                            &&& spill_weight == self.vreg_at(vreg.0 as int).spill_weight
                            &&& segments@ == self.segs_at(vreg.0 as int)
                            &&& call_ensures(filter, (vreg,), true)
                        },
                        DumpLine::Group { .. } => false,
                    },
                forall|j: int|
                    0 <= j < r@.len() ==> 0 <= dump_reg_index(#[trigger] r@[j]) < v as int,
                forall|w: int|
                    0 <= w < v ==> (exists|j: int|
                        0 <= j < r@.len() && dump_reg_index(#[trigger] r@[j]) == w)
                        || #[trigger] call_ensures(filter, (VirtReg(w as u32),), false),
                forall|j1: int, j2: int|
                    0 <= j1 < j2 < r@.len() ==> dump_reg_index(#[trigger] r@[j1]) < dump_reg_index(
                        #[trigger] r@[j2],
                    ),
            decreases n - v,
        {
            let handle = VirtReg(v as u32);
            let ghost r_prev = r@;
            if filter(handle) {
                let segments = vstd::slice::slice_to_vec(self.segments(handle));
                let data = &self.virt_regs[v];
                let line = DumpLine::Reg {
                    vreg: handle,
                    class: data.class,
                    spill_weight: data.spill_weight,
                    segments,
                };
                r.push(line);
                proof {
                    assert(dump_reg_index(r@[r@.len() - 1]) == v as int);
                    assert forall|w: int|
                        0 <= w < v as int && !(#[trigger] call_ensures(
                            filter,
                            (VirtReg(w as u32),),
                            false,
                        )) implies exists|j: int|
                        0 <= j < r@.len() && dump_reg_index(#[trigger] r@[j]) == w by {
                        let j0 = choose|j: int|
                            0 <= j < r_prev.len() && dump_reg_index(#[trigger] r_prev[j]) == w;
                        assert(r@[j0] == r_prev[j0]);
                        assert(dump_reg_index(r@[j0]) == w);
                    }
                }
            }
            v += 1;
        }
        let ghost regs_only = r@;
        let m = self.groups.len();
        let mut g: usize = 0;
        while g < m
            invariant
                g <= m,
                r@.len() >= regs_only.len(),
                forall|j: int| 0 <= j < regs_only.len() ==> #[trigger] r@[j] == regs_only[j],
                forall|j: int|
                    regs_only.len() <= j < r@.len() ==> (#[trigger] r@[j]) is Group,
                forall|j: int|
                    0 <= j < r@.len() ==> match #[trigger] r@[j] {
                        DumpLine::Reg { vreg, class, spill_weight, segments } => {
                            &&& (vreg.0 as int) < self.n_vregs()
                            &&& class == self.vreg_at(vreg.0 as int).class
                            &&& spill_weight == self.vreg_at(vreg.0 as int).spill_weight
                            &&& segments@ == self.segs_at(vreg.0 as int)
                            &&& call_ensures(filter, (vreg,), true)
                        },
                        DumpLine::Group { group, members } => {
                            &&& (group.0 as int) < self.n_groups()
                            &&& members@ == self.members_at(group.0 as int)
                            &&& members@.len() >= 1
                            &&& call_ensures(filter, (members@[0],), true)
                        },
                    },
                forall|j: int|
                    regs_only.len() <= j < r@.len() ==> 0 <= dump_group_index(#[trigger] r@[j])
                        < g as int,
                forall|h: int|
                    0 <= h < g ==> (exists|j: int|
                        0 <= j < r@.len() && dump_group_index(#[trigger] r@[j]) == h)
                        || #[trigger] call_ensures(filter, (self.members_at(h)[0],), false),
                forall|j1: int, j2: int|
                    regs_only.len() <= j1 < j2 < r@.len() ==> dump_group_index(#[trigger] r@[j1])
                        < dump_group_index(#[trigger] r@[j2]),
                forall|w: int|
                    0 <= w < self.n_vregs() ==> (exists|j: int|
                        0 <= j < r@.len() && dump_reg_index(#[trigger] r@[j]) == w)
                        || #[trigger] call_ensures(filter, (VirtReg(w as u32),), false),
            decreases m - g,
        {
            let handle = VirtRegGroup(g as u32);
            proof {
                assert(self.group_wf(g as int));
            }
            let members_slice = self.group_members(handle);
            let first = *vstd::slice::slice_index_get(members_slice, 0);
            let ghost r_prev = r@;
            if filter(first) {
                let members = vstd::slice::slice_to_vec(members_slice);
                let line = DumpLine::Group { group: handle, members };
                r.push(line);
                proof {
                    assert(dump_group_index(r@[r@.len() - 1]) == g as int);
                    assert forall|w: int|
                        0 <= w < self.n_vregs() && !(#[trigger] call_ensures(
                            filter,
                            (VirtReg(w as u32),),
                            false,
                        )) implies exists|j: int|
                        0 <= j < r@.len() && dump_reg_index(#[trigger] r@[j]) == w by {
                        let j0 = choose|j: int|
                            0 <= j < r_prev.len() && dump_reg_index(#[trigger] r_prev[j]) == w;
                        assert(r@[j0] == r_prev[j0]);
                        assert(dump_reg_index(r@[j0]) == w);
                    }
                    assert forall|h: int|
                        0 <= h < g as int && !(#[trigger] call_ensures(
                            filter,
                            (self.members_at(h)[0],),
                            false,
                        )) implies exists|j: int|
                        0 <= j < r@.len() && dump_group_index(#[trigger] r@[j]) == h by {
                        let j0 = choose|j: int|
                            0 <= j < r_prev.len() && dump_group_index(#[trigger] r_prev[j]) == h;
                        assert(r@[j0] == r_prev[j0]);
                        assert(dump_group_index(r@[j0]) == h);
                    }
                }
            }
            g += 1;
        }
        proof {
            if forall|v2: VirtReg, b: bool| call_ensures(filter, (v2,), b) ==> !b {
                if r@.len() > 0 {
                    assert(match r@[0] {
                        DumpLine::Reg { vreg, .. } => call_ensures(filter, (vreg,), true),
                        DumpLine::Group { members, .. } => call_ensures(
                            filter,
                            (members@[0],),
                            true,
                        ),
                    });
                }
            }
        }
        r
    }
}


/// A group's well-formedness and weight uniformity carry over to a state with
/// the same member list and unchanged records of the referenced registers.
proof fn lemma_group_preserved(s0: VirtRegs, s1: VirtRegs, g2: int)
    requires
        0 <= g2 < s0.n_groups(),
        s0.group_wf(g2),
        s0.members_uniform(g2),
        s1.members_at(g2) == s0.members_at(g2),
        s0.n_vregs() <= s1.n_vregs(),
        forall|i: int| 0 <= i < s0.n_vregs() ==> #[trigger] s1.vreg_at(i) == s0.vreg_at(i),
    ensures
        s1.group_wf(g2),
        s1.members_uniform(g2),
{
    assert forall|m2: int| 0 <= m2 < s1.members_at(g2).len() implies ((#[trigger] s1.members_at(
        g2,
    )[m2]).is_reserved() || {
        &&& (s1.members_at(g2)[m2].0 as int) < s1.n_vregs()
        &&& s1.vreg_at(s1.members_at(g2)[m2].0 as int).group == Some(VirtRegGroup(g2 as u32))
        &&& (s1.vreg_at(s1.members_at(g2)[m2].0 as int).group_index as int) == m2
    }) by {
        assert(s0.members_at(g2)[m2] == s1.members_at(g2)[m2]);
        if !s0.members_at(g2)[m2].is_reserved() {
            assert((s0.members_at(g2)[m2].0 as int) < s0.n_vregs());
            assert(s1.vreg_at(s0.members_at(g2)[m2].0 as int) == s0.vreg_at(
                s0.members_at(g2)[m2].0 as int,
            ));
        }
    }
    assert forall|ma: int, mb: int|
        0 <= ma < s1.members_at(g2).len() && 0 <= mb < s1.members_at(g2).len() && !(
        #[trigger] s1.members_at(g2)[ma]).is_reserved() && !(
    #[trigger] s1.members_at(g2)[mb]).is_reserved() implies (s1.vreg_at(
        s1.members_at(g2)[ma].0 as int,
    ).spill_weight == s1.vreg_at(s1.members_at(g2)[mb].0 as int).spill_weight && s1.vreg_at(
        s1.members_at(g2)[ma].0 as int,
    ).class == s1.vreg_at(s1.members_at(g2)[mb].0 as int).class) by {
        assert(s0.members_at(g2)[ma] == s1.members_at(g2)[ma]);
        assert(s0.members_at(g2)[mb] == s1.members_at(g2)[mb]);
        assert((s0.members_at(g2)[ma].0 as int) < s0.n_vregs());
        assert((s0.members_at(g2)[mb].0 as int) < s0.n_vregs());
        assert(s1.vreg_at(s0.members_at(g2)[ma].0 as int) == s0.vreg_at(
            s0.members_at(g2)[ma].0 as int,
        ));
        assert(s1.vreg_at(s0.members_at(g2)[mb].0 as int) == s0.vreg_at(
            s0.members_at(g2)[mb].0 as int,
        ));
    }
}

/// A register's well-formedness carries over to a state with the same record,
/// the same segment list, and an unchanged member list of its group.
proof fn lemma_vreg_preserved(s0: VirtRegs, s1: VirtRegs, i: int)
    requires
        0 <= i < s0.n_vregs(),
        s0.vreg_wf(i),
        s1.vreg_at(i) == s0.vreg_at(i),
        s1.segs_at(i) == s0.segs_at(i),
        s0.n_groups() <= s1.n_groups(),
        match s0.vreg_at(i).group {
            Some(g) => s1.members_at(g.0 as int) == s0.members_at(g.0 as int),
            None => true,
        },
    ensures
        s1.vreg_wf(i),
{
}

/// Group member regions are laid out in creation order: an earlier group's
/// region ends no later than a later group's begins.
proof fn lemma_group_starts_sorted(s: VirtRegs, a: int, b: int)
    requires
        s.inv(),
        0 <= a < b < s.n_groups(),
    ensures
        s.groups@[a].start as int + s.groups@[a].len as int <= s.groups@[b].start as int,
    decreases b - a,
{
    assert(s.group_wf(a));
    assert(s.group_wf(b));
    if a + 1 == b {
        assert(s.groups@[a + 1].start as int == s.groups@[a].start as int + s.groups@[a].len as int);
    } else {
        lemma_group_starts_sorted(s, a, b - 1);
        assert(s.group_wf(b - 1));
        assert(s.groups@[b - 1 + 1].start as int == s.groups@[b - 1].start as int + s.groups@[b
            - 1].len as int);
        assert(s.members_at(b - 1).len() >= 1);
    }
}

} // verus!
