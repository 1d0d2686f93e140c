//! Construction of virtual registers from value sets.
//!
//! One value set — a non-empty, sorted, pairwise-disjoint segment list whose
//! values all belong to one bank — becomes the virtual registers of one
//! allocatable unit.  The bank fixes the register class; the class fixes the
//! group size `g`.  Each of the `g` group positions receives the subsequence
//! of segments sitting at that position, a shared spill weight (the minimum
//! of the per-position use densities), and a hint flag.  For `g > 1` the
//! registers are tied together in a group, built in two phases: the group is
//! registered first with every member slot holding the reserved placeholder,
//! and each slot is patched as its member is built.

use vstd::prelude::*;

use crate::context::{FuncInfo, RegInfoTable};
use crate::entities::{RegBank, VirtReg, VirtRegGroup};
use crate::segments::LiveRangeSegment;
use crate::spill_allocator::{SpillAllocator, SpillSetReservation};
use crate::stats::Stats;
use crate::value_live_ranges::ValueLiveRanges;
use crate::segments::{
    all_nonempty, covered_len, has_hint, lemma_accum_push, lemma_part_of_props,
    lemma_part_of_take_step, lemma_parts_len_sum_mono, lemma_parts_len_sum_push,
    lemma_parts_partition, lemma_sums_bounds, min_weight, ordered_disjoint, part_of,
    parts_len_sum, sum_freq, weight_of, ValueSegment,
};
use crate::virt_regs::{VirtRegs, MAX_ENTITIES};

verus! {

/// What the builder asks of one value set: non-empty, sorted, disjoint
/// segments, every group position below the class's group size, and every
/// position occupied by at least one segment.
pub open spec fn build_input_wf(ss: Seq<ValueSegment>, bank: RegBank, reginfo: RegInfoTable) -> bool {
    let g = reginfo.group_size_of(reginfo.bank_class_of(bank));
    &&& 1 <= ss.len() <= 0xFFFF_FFFF
    &&& all_nonempty(ss)
    &&& ordered_disjoint(ss)
    &&& forall|i: int| 0 <= i < ss.len() ==> ((#[trigger] ss[i]).group_index as int) < g
    &&& forall|k: int| 0 <= k < g ==> (#[trigger] part_of(ss, k)).len() >= 1
}

/// The record and segments that member `k` of a build over `ss` must carry.
pub open spec fn built_vreg_ok(
    s: VirtRegs,
    base_vreg: int,
    base_group: int,
    ss: Seq<ValueSegment>,
    bank: RegBank,
    reginfo: RegInfoTable,
    k: int,
) -> bool {
    let class = reginfo.bank_class_of(bank);
    let g = reginfo.group_size_of(class);
    &&& s.vreg_at(base_vreg + k).class == class
    &&& (s.vreg_at(base_vreg + k).group_index as int) == k
    &&& s.vreg_at(base_vreg + k).group == (if g > 1 {
        Some(VirtRegGroup(base_group as u32))
    } else {
        None::<VirtRegGroup>
    })
    &&& s.vreg_at(base_vreg + k).has_fixed_hint == has_hint(part_of(ss, k))
    &&& (s.vreg_at(base_vreg + k).spill_weight as int) == min_weight(ss, g)
    &&& s.segs_at(base_vreg + k) == part_of(ss, k)
}

/// Everything one build over `ss` leaves in the store, starting at handle
/// index `base_vreg` (and `base_group` when a group is created).
pub open spec fn built_set_ok(
    s: VirtRegs,
    base_vreg: int,
    base_group: int,
    ss: Seq<ValueSegment>,
    bank: RegBank,
    reginfo: RegInfoTable,
) -> bool {
    let g = reginfo.group_size_of(reginfo.bank_class_of(bank));
    &&& forall|k: int| 0 <= k < g ==> built_vreg_ok(s, base_vreg, base_group, ss, bank, reginfo, k)
    &&& g > 1 ==> s.members_at(base_group) == Seq::new(
        g as nat,
        |k: int| VirtReg((base_vreg + k) as u32),
    )
}

/// Scratch state reused across builder invocations within one pass.
pub struct VirtRegBuilder {
    scratch: Vec<ValueSegment>,
}

impl VirtRegBuilder {
    pub fn new() -> (r: VirtRegBuilder) {
        VirtRegBuilder { scratch: Vec::new() }
    }

    /// Resets the scratch state for a new function's pass.
    pub fn clear(&mut self) {
        self.scratch.clear();
    }

    /// Use density of the segments at group position `k`: their summed use
    /// frequency divided by the number of program points they cover.
    fn part_weight(segments: &Vec<ValueSegment>, k: u8) -> (w: u64)
        requires
            segments@.len() <= 0xFFFF_FFFF,
            all_nonempty(segments@),
            part_of(segments@, k as int).len() >= 1,
        ensures
            w as int == weight_of(part_of(segments@, k as int)),
    {
        let n = segments.len();
        let mut freq: u64 = 0;
        let mut cov: u64 = 0;
        let mut i: usize = 0;
        while i < n
            invariant
                i <= n,
                n == segments@.len(),
                n <= 0xFFFF_FFFF,
                all_nonempty(segments@),
                freq as int == sum_freq(part_of(segments@.take(i as int), k as int)),
                cov as int == covered_len(part_of(segments@.take(i as int), k as int)),
                freq as int <= i * 0xFFFF_FFFF,
                cov as int <= i * 0xFFFF_FFFF,
            decreases n - i,
        {
            let seg = segments[i];
            proof {
                lemma_part_of_take_step(segments@, k as int, i as int);
                lemma_accum_push(part_of(segments@.take(i as int), k as int), seg);
                assert((i + 1) * 0xFFFF_FFFF == i * 0xFFFF_FFFF + 0xFFFF_FFFF) by (nonlinear_arith);
                assert(n * 0xFFFF_FFFF <= 0xFFFF_FFFF * 0xFFFF_FFFF) by (nonlinear_arith)
                    requires n <= 0xFFFF_FFFF;
            }
            if seg.group_index == k {
                freq = freq + seg.use_freq as u64;
                cov = cov + (seg.live_range.to - seg.live_range.from) as u64;
            }
            i += 1;
        }
        proof {
            assert(segments@.take(n as int) =~= segments@);
            lemma_part_of_props(segments@, k as int);
            lemma_sums_bounds(part_of(segments@, k as int));
        }
        freq / cov
    }

    /// Builds the virtual registers of one value set into `vregs`, appending
    /// every handle it creates to `new_vregs` in creation order.
    #[verifier::loop_isolation(false)]
    pub fn build(
        &mut self,
        bank: RegBank,
        reginfo: &RegInfoTable,
        vregs: &mut VirtRegs,
        new_vregs: &mut Vec<VirtReg>,
        segments: &Vec<ValueSegment>,
    )
        requires
            reginfo.wf(),
            reginfo.valid_bank(bank),
            build_input_wf(segments@, bank, *reginfo),
            old(vregs).inv(),
            old(vregs).complete(),
            old(vregs).classes_wf(*reginfo),
            old(vregs).n_vregs() + reginfo.group_size_of(reginfo.bank_class_of(bank))
                <= MAX_ENTITIES as int,
            old(vregs).n_groups() + 1 <= MAX_ENTITIES as int,
            old(vregs).n_pool_segments() + segments@.len() <= usize::MAX as int,
            old(vregs).n_pool_members() + reginfo.group_size_of(reginfo.bank_class_of(bank))
                <= usize::MAX as int,
        ensures
            final(vregs).inv(),
            final(vregs).complete(),
            final(vregs).classes_wf(*reginfo),
            final(vregs).n_vregs() == old(vregs).n_vregs() + reginfo.group_size_of(
                reginfo.bank_class_of(bank),
            ),
            final(vregs).n_groups() == old(vregs).n_groups() + (if reginfo.group_size_of(
                reginfo.bank_class_of(bank),
            ) > 1 {
                1int
            } else {
                0int
            }),
            final(vregs).n_pool_segments() == old(vregs).n_pool_segments() + segments@.len(),
            final(vregs).n_pool_members() == old(vregs).n_pool_members() + (
            if reginfo.group_size_of(reginfo.bank_class_of(bank)) > 1 {
                reginfo.group_size_of(reginfo.bank_class_of(bank))
            } else {
                0int
            }),
            built_set_ok(
                *final(vregs),
                old(vregs).n_vregs(),
                old(vregs).n_groups(),
                segments@,
                bank,
                *reginfo,
            ),
            forall|i: int|
                0 <= i < old(vregs).n_vregs() ==> #[trigger] final(vregs).vreg_at(i) == old(
                    vregs,
                ).vreg_at(i),
            forall|i: int|
                0 <= i < old(vregs).n_vregs() ==> #[trigger] final(vregs).segs_at(i) == old(
                    vregs,
                ).segs_at(i),
            forall|g2: int|
                0 <= g2 < old(vregs).n_groups() ==> #[trigger] final(vregs).members_at(g2) == old(
                    vregs,
                ).members_at(g2),
            final(new_vregs)@ == old(new_vregs)@ + Seq::new(
                reginfo.group_size_of(reginfo.bank_class_of(bank)) as nat,
                |j: int| VirtReg((old(vregs).n_vregs() + j) as u32),
            ),
    {
        let ghost ss = segments@;
        let ghost s0 = *old(vregs);
        proof {
            crate::virt_regs::lemma_counts_nonneg(s0);
        }
        let class = reginfo.bank_class(bank);
        let gsize = reginfo.class_group_size(class);
        let ghost g = gsize as int;

        let mut min_w = Self::part_weight(segments, 0);
        let mut kw: u8 = 1;
        while kw < gsize
            invariant
                1 <= kw <= gsize,
                gsize as int == g,
                g == reginfo.group_size_of(reginfo.bank_class_of(bank)),
                build_input_wf(ss, bank, *reginfo),
                ss == segments@,
                min_w as int == min_weight(ss, kw as int),
            decreases gsize - kw,
        {
            let w = Self::part_weight(segments, kw);
            if w < min_w {
                min_w = w;
            }
            kw += 1;
        }
        proof {
            assert(min_w as int == min_weight(ss, g));
        }

        let group: Option<VirtRegGroup> = if gsize > 1 {
            Some(vregs.push_group(gsize as usize))
        } else {
            None
        };
        let ghost base = s0.n_vregs();
        let ghost gh = s0.n_groups();
        let ghost out0 = new_vregs@;

        let mut k: usize = 0;
        while k < gsize as usize
            invariant
                k <= g,
                gsize as int == g,
                g >= 1,
                g == reginfo.group_size_of(reginfo.bank_class_of(bank)),
                reginfo.wf(),
                reginfo.valid_bank(bank),
                class == reginfo.bank_class_of(bank),
                build_input_wf(ss, bank, *reginfo),
                ss == segments@,
                min_w as int == min_weight(ss, g),
                group == (if g > 1 {
                    Some(VirtRegGroup(gh as u32))
                } else {
                    None::<VirtRegGroup>
                }),
                s0 == *old(vregs),
                base == s0.n_vregs(),
                gh == s0.n_groups(),
                s0.inv(),
                s0.complete(),
                s0.classes_wf(*reginfo),
                base + g <= MAX_ENTITIES as int,
                s0.n_pool_segments() + ss.len() <= usize::MAX as int,
                vregs.inv(),
                vregs.n_vregs() == base + k,
                vregs.n_groups() == gh + (if g > 1 {
                    1int
                } else {
                    0int
                }),
                vregs.n_pool_segments() == s0.n_pool_segments() + parts_len_sum(ss, k as int),
                vregs.n_pool_members() == s0.n_pool_members() + (if g > 1 {
                    g
                } else {
                    0int
                }),
                g > 1 ==> vregs.members_at(gh) == Seq::new(
                    g as nat,
                    |m: int|
                        if m < k {
                            VirtReg((base + m) as u32)
                        } else {
                            VirtReg(crate::entities::RESERVED_INDEX)
                        },
                ),
                forall|j: int|
                    0 <= j < k ==> built_vreg_ok(*vregs, base, gh, ss, bank, *reginfo, j),
                forall|i: int|
                    0 <= i < base ==> #[trigger] vregs.vreg_at(i) == s0.vreg_at(i),
                forall|i: int|
                    0 <= i < base ==> #[trigger] vregs.segs_at(i) == s0.segs_at(i),
                forall|g2: int|
                    0 <= g2 < gh ==> #[trigger] vregs.members_at(g2) == s0.members_at(g2),
                new_vregs@ == out0 + Seq::new(k as nat, |j: int| VirtReg((base + j) as u32)),
            decreases g - k,
        {
            let ghost part = part_of(ss, k as int);
            proof {
                lemma_part_of_props(ss, k as int);
                lemma_parts_len_sum_mono(ss, k as int + 1, g);
                lemma_parts_partition(ss, g);
            }

            self.scratch.clear();
            let mut hint = false;
            let n = segments.len();
            let mut i: usize = 0;
            while i < n
                invariant
                    i <= n,
                    n == ss.len(),
                    ss == segments@,
                    (k as u8) as int == k as int,
                    self.scratch@ == part_of(ss.take(i as int), k as int),
                    hint == has_hint(part_of(ss.take(i as int), k as int)),
                decreases n - i,
            {
                let seg = segments[i];
                proof {
                    lemma_part_of_take_step(ss, k as int, i as int);
                    lemma_accum_push(part_of(ss.take(i as int), k as int), seg);
                }
                if seg.group_index == k as u8 {
                    self.scratch.push(seg);
                    hint = hint || seg.has_fixed_hint;
                }
                i += 1;
            }
            proof {
                assert(ss.take(n as int) =~= ss);
                assert(self.scratch@ == part);
            }

            proof {
                assert((k as u8) as int == k as int);
                if g > 1 {
                    assert(vregs.members_at(gh)[k as int].is_reserved());
                    assert forall|m: int|
                        0 <= m < vregs.members_at(gh).len() && !(#[trigger] vregs.members_at(
                        gh,
                    )[m]).is_reserved() implies (vregs.vreg_at(
                        vregs.members_at(gh)[m].0 as int,
                    ).spill_weight == min_w && vregs.vreg_at(
                        vregs.members_at(gh)[m].0 as int,
                    ).class == class) by {
                        assert(vregs.members_at(gh)[m] == VirtReg((base + m) as u32));
                        assert(m < k as int);
                        assert(0 <= base + m <= MAX_ENTITIES as int) by (nonlinear_arith)
                            requires
                                0 <= m,
                                m < k as int,
                                k as int <= g,
                                0 <= base,
                                base + g <= MAX_ENTITIES as int,
                        ;
                        assert((VirtReg((base + m) as u32).0 as int) == base + m);
                        assert(built_vreg_ok(*vregs, base, gh, ss, bank, *reginfo, m));
                    }
                }
            }
            let ghost pre_push = *vregs;
            let v = vregs.push_vreg(class, k as u8, group, hint, min_w, &self.scratch);
            proof {
                assert(v == VirtReg((base + k) as u32));
                assert(built_vreg_ok(*vregs, base, gh, ss, bank, *reginfo, k as int));
                assert forall|j: int| 0 <= j < k implies built_vreg_ok(
                    *vregs,
                    base,
                    gh,
                    ss,
                    bank,
                    *reginfo,
                    j,
                ) by {
                    assert(built_vreg_ok(pre_push, base, gh, ss, bank, *reginfo, j));
                    assert(vregs.vreg_at(base + j) == pre_push.vreg_at(base + j));
                    assert(vregs.segs_at(base + j) == pre_push.segs_at(base + j));
                }
            }
            if let Some(gh_handle) = group {
                proof {
                    assert(gh_handle == VirtRegGroup(gh as u32));
                    assert(g > 1);
                    assert(vregs.members_at(gh) == pre_push.members_at(gh));
                    assert(vregs.members_at(gh)[k as int].is_reserved());
                    assert((v.0 as int) == base + k);
                    assert(vregs.vreg_at(v.0 as int).group == Some(gh_handle));
                    assert forall|i2: int|
                        0 <= i2 < vregs.n_vregs() && i2 != v.0 as int implies !((
                    #[trigger] vregs.vreg_at(i2)).group == Some(gh_handle)
                        && vregs.vreg_at(i2).group_index as int == k as int) by {
                        if i2 < base {
                            assert(vregs.vreg_at(i2) == s0.vreg_at(i2));
                            assert(s0.vreg_wf(i2));
                            match s0.vreg_at(i2).group {
                                Some(g3) => {
                                    assert((g3.0 as int) < gh);
                                },
                                None => {},
                            }
                        } else {
                            assert(built_vreg_ok(*vregs, base, gh, ss, bank, *reginfo, i2 - base));
                        }
                    }
                    assert forall|m2: int|
                        0 <= m2 < vregs.members_at(gh).len() && !(#[trigger] vregs.members_at(
                        gh,
                    )[m2]).is_reserved() implies (vregs.vreg_at(
                        vregs.members_at(gh)[m2].0 as int,
                    ).spill_weight == vregs.vreg_at(v.0 as int).spill_weight && vregs.vreg_at(
                        vregs.members_at(gh)[m2].0 as int,
                    ).class == vregs.vreg_at(v.0 as int).class) by {
                        assert(vregs.members_at(gh)[m2] == VirtReg((base + m2) as u32));
                        assert(m2 < k as int);
                        assert((VirtReg((base + m2) as u32).0 as int) == base + m2);
                        assert(built_vreg_ok(*vregs, base, gh, ss, bank, *reginfo, m2));
                    }
                }
                let ghost pre_set = *vregs;
                vregs.set_group_member(gh_handle, k, v);
                proof {
                    assert forall|j: int| 0 <= j < k + 1 implies built_vreg_ok(
                        *vregs,
                        base,
                        gh,
                        ss,
                        bank,
                        *reginfo,
                        j,
                    ) by {
                        assert(built_vreg_ok(pre_set, base, gh, ss, bank, *reginfo, j));
                        assert(vregs.vreg_at(base + j) == pre_set.vreg_at(base + j));
                        assert(vregs.segs_at(base + j) == pre_set.segs_at(base + j));
                    }
                    assert(vregs.members_at(gh) =~= Seq::new(
                        g as nat,
                        |m: int|
                            if m < k + 1 {
                                VirtReg((base + m) as u32)
                            } else {
                                VirtReg(crate::entities::RESERVED_INDEX)
                            },
                    ));
                    assert forall|i: int| 0 <= i < base implies #[trigger] vregs.vreg_at(i)
                        == s0.vreg_at(i) && #[trigger] vregs.segs_at(i) == s0.segs_at(i) by {
                        assert(pre_set.vreg_at(i) == s0.vreg_at(i));
                        assert(pre_set.segs_at(i) == s0.segs_at(i));
                    }
                    assert forall|g2: int| 0 <= g2 < gh implies #[trigger] vregs.members_at(g2)
                        == s0.members_at(g2) by {
                        assert(pre_set.members_at(g2) == s0.members_at(g2));
                    }
                }
            }
            new_vregs.push(v);
            proof {
                assert(new_vregs@ =~= out0 + Seq::new(
                    (k + 1) as nat,
                    |j: int| VirtReg((base + j) as u32),
                ));
            }
            k += 1;
        }
        proof {
            lemma_parts_partition(ss, g);
            if g > 1 {
                assert(vregs.members_at(gh) =~= Seq::new(
                    g as nat,
                    |kk: int| VirtReg((base + kk) as u32),
                ));
            }
            assert(built_set_ok(*vregs, base, gh, ss, bank, *reginfo));
            assert(vregs.complete()) by {
                assert forall|g2: int, m: int|
                    0 <= g2 < vregs.n_groups() && 0 <= m < vregs.members_at(g2).len() implies !(
                #[trigger] vregs.members_at(g2)[m]).is_reserved() by {
                    if g2 < gh {
                        assert(vregs.members_at(g2) == s0.members_at(g2));
                    } else {
                        assert(vregs.members_at(g2)[m] == VirtReg((base + m) as u32));
                    }
                }
            }
            assert(vregs.classes_wf(*reginfo)) by {
                assert forall|i: int| 0 <= i < vregs.n_vregs() implies {
                    &&& reginfo.valid_class((#[trigger] vregs.vreg_at(i)).class)
                    &&& match vregs.vreg_at(i).group {
                        Some(g3) => vregs.members_at(g3.0 as int).len() == reginfo.group_size_of(
                            vregs.vreg_at(i).class,
                        ),
                        None => reginfo.group_size_of(vregs.vreg_at(i).class) == 1,
                    }
                } by {
                    if i < base {
                        assert(vregs.vreg_at(i) == s0.vreg_at(i));
                        match s0.vreg_at(i).group {
                            Some(g3) => {
                                assert(s0.vreg_wf(i));
                                assert(vregs.members_at(g3.0 as int) == s0.members_at(
                                    g3.0 as int,
                                ));
                            },
                            None => {},
                        }
                    } else {
                        assert(built_vreg_ok(*vregs, base, gh, ss, bank, *reginfo, i - base));
                    }
                }
            }
            assert(new_vregs@ == out0 + Seq::new(
                g as nat,
                |j: int| VirtReg((base + j) as u32),
            ));
        }
    }
}

/// Bank a value set belongs to: the bank of its first segment's value.
pub open spec fn set_bank(ss: Seq<ValueSegment>, func: FuncInfo) -> RegBank {
    func.bank_of(ss[0].value)
}

/// Group size of the class a value set is built with.
pub open spec fn set_gsize(ss: Seq<ValueSegment>, func: FuncInfo, reginfo: RegInfoTable) -> int {
    reginfo.group_size_of(reginfo.bank_class_of(set_bank(ss, func)))
}

/// What the construction entry points ask of one value set: all values known
/// to the function and of one bank, that bank known to the register file, and
/// the segments well formed for the builder.
pub open spec fn value_set_wf(ss: Seq<ValueSegment>, func: FuncInfo, reginfo: RegInfoTable) -> bool {
    &&& forall|i: int| 0 <= i < ss.len() ==> func.valid_value((#[trigger] ss[i]).value)
    &&& forall|i: int|
        0 <= i < ss.len() ==> func.bank_of((#[trigger] ss[i]).value) == set_bank(ss, func)
    &&& reginfo.valid_bank(set_bank(ss, func))
    &&& build_input_wf(ss, set_bank(ss, func), reginfo)
}

/// Every value set of the live-range source is well formed.
pub open spec fn sets_wf(
    sets: Seq<(crate::entities::ValueSet, Vec<ValueSegment>)>,
    func: FuncInfo,
    reginfo: RegInfoTable,
) -> bool {
    forall|j: int| 0 <= j < sets.len() ==> value_set_wf((#[trigger] sets[j]).1@, func, reginfo)
}

/// Virtual registers created by the first `j` value sets of a bulk build.
pub open spec fn vregs_before(
    sets: Seq<(crate::entities::ValueSet, Vec<ValueSegment>)>,
    func: FuncInfo,
    reginfo: RegInfoTable,
    j: int,
) -> int
    decreases j,
{
    if j <= 0 {
        0
    } else {
        vregs_before(sets, func, reginfo, j - 1) + set_gsize(sets[j - 1].1@, func, reginfo)
    }
}

/// Groups created by the first `j` value sets of a bulk build.
pub open spec fn groups_before(
    sets: Seq<(crate::entities::ValueSet, Vec<ValueSegment>)>,
    func: FuncInfo,
    reginfo: RegInfoTable,
    j: int,
) -> int
    decreases j,
{
    if j <= 0 {
        0
    } else {
        groups_before(sets, func, reginfo, j - 1) + (if set_gsize(sets[j - 1].1@, func, reginfo)
            > 1 {
            1int
        } else {
            0int
        })
    }
}

/// Segments stored by the first `j` value sets of a bulk build.
pub open spec fn segments_before(
    sets: Seq<(crate::entities::ValueSet, Vec<ValueSegment>)>,
    j: int,
) -> int
    decreases j,
{
    if j <= 0 {
        0
    } else {
        segments_before(sets, j - 1) + sets[j - 1].1@.len()
    }
}

/// Group member slots created by the first `j` value sets of a bulk build.
pub open spec fn members_before(
    sets: Seq<(crate::entities::ValueSet, Vec<ValueSegment>)>,
    func: FuncInfo,
    reginfo: RegInfoTable,
    j: int,
) -> int
    decreases j,
{
    if j <= 0 {
        0
    } else {
        members_before(sets, func, reginfo, j - 1) + (if set_gsize(sets[j - 1].1@, func, reginfo)
            > 1 {
            set_gsize(sets[j - 1].1@, func, reginfo)
        } else {
            0int
        })
    }
}

/// The prefix counts grow with the prefix, groups and member slots never
/// outnumber virtual registers, and none is negative.
pub proof fn lemma_prefix_counts(
    sets: Seq<(crate::entities::ValueSet, Vec<ValueSegment>)>,
    func: FuncInfo,
    reginfo: RegInfoTable,
    j: int,
)
    requires
        reginfo.wf(),
        sets_wf(sets, func, reginfo),
        0 <= j <= sets.len(),
    ensures
        0 <= vregs_before(sets, func, reginfo, j),
        0 <= groups_before(sets, func, reginfo, j) <= vregs_before(sets, func, reginfo, j),
        0 <= members_before(sets, func, reginfo, j) <= vregs_before(sets, func, reginfo, j),
        0 <= segments_before(sets, j),
        vregs_before(sets, func, reginfo, j) <= vregs_before(sets, func, reginfo, sets.len() as int),
        groups_before(sets, func, reginfo, j) <= groups_before(sets, func, reginfo, sets.len() as int),
        members_before(sets, func, reginfo, j) <= members_before(
            sets,
            func,
            reginfo,
            sets.len() as int,
        ),
        segments_before(sets, j) <= segments_before(sets, sets.len() as int),
    decreases sets.len() - j,
{
    lemma_prefix_counts_nonneg(sets, func, reginfo, j);
    if j < sets.len() {
        assert(value_set_wf(sets[j].1@, func, reginfo));
        assert(set_gsize(sets[j].1@, func, reginfo) >= 1);
        lemma_prefix_counts(sets, func, reginfo, j + 1);
    }
}

/// Each prefix count grows with the prefix.
pub proof fn lemma_prefix_mono(
    sets: Seq<(crate::entities::ValueSet, Vec<ValueSegment>)>,
    func: FuncInfo,
    reginfo: RegInfoTable,
    a: int,
    b: int,
)
    requires
        reginfo.wf(),
        sets_wf(sets, func, reginfo),
        0 <= a <= b <= sets.len(),
    ensures
        vregs_before(sets, func, reginfo, a) <= vregs_before(sets, func, reginfo, b),
        groups_before(sets, func, reginfo, a) <= groups_before(sets, func, reginfo, b),
        members_before(sets, func, reginfo, a) <= members_before(sets, func, reginfo, b),
        segments_before(sets, a) <= segments_before(sets, b),
    decreases b - a,
{
    if a < b {
        assert(value_set_wf(sets[b - 1].1@, func, reginfo));
        assert(set_gsize(sets[b - 1].1@, func, reginfo) >= 1);
        lemma_prefix_mono(sets, func, reginfo, a, b - 1);
    }
}

/// Nonnegativity of the prefix counts and the group/member comparisons.
proof fn lemma_prefix_counts_nonneg(
    sets: Seq<(crate::entities::ValueSet, Vec<ValueSegment>)>,
    func: FuncInfo,
    reginfo: RegInfoTable,
    j: int,
)
    requires
        reginfo.wf(),
        sets_wf(sets, func, reginfo),
        j <= sets.len(),
    ensures
        0 <= vregs_before(sets, func, reginfo, j),
        0 <= groups_before(sets, func, reginfo, j) <= vregs_before(sets, func, reginfo, j),
        0 <= members_before(sets, func, reginfo, j) <= vregs_before(sets, func, reginfo, j),
        0 <= segments_before(sets, j),
    decreases j,
{
    if j > 0 {
        lemma_prefix_counts_nonneg(sets, func, reginfo, j - 1);
        assert(value_set_wf(sets[j - 1].1@, func, reginfo));
        assert(set_gsize(sets[j - 1].1@, func, reginfo) >= 1);
    }
}

impl VirtRegs {
    /// Creates new virtual registers from the given segments: the incremental
    /// entry used when existing registers are replaced, for example after a
    /// split.  Splitting is not reconsidered here.  Every handle created by
    /// this call — and no handle from any earlier call — is appended to
    /// `new_vregs` in creation order.
    pub fn create_vreg_from_segments(
        &mut self,
        segments: &Vec<ValueSegment>,
        func: &FuncInfo,
        reginfo: &RegInfoTable,
        virt_reg_builder: &mut VirtRegBuilder,
        new_vregs: &mut Vec<VirtReg>,
    )
        requires
            reginfo.wf(),
            value_set_wf(segments@, *func, *reginfo),
            old(self).inv(),
            old(self).complete(),
            old(self).classes_wf(*reginfo),
            old(self).n_vregs() + set_gsize(segments@, *func, *reginfo) <= MAX_ENTITIES as int,
            old(self).n_groups() + 1 <= MAX_ENTITIES as int,
            old(self).n_pool_segments() + segments@.len() <= usize::MAX as int,
            old(self).n_pool_members() + set_gsize(segments@, *func, *reginfo) <= usize::MAX as int,
        ensures
            final(self).inv(),
            final(self).complete(),
            final(self).classes_wf(*reginfo),
            final(self).n_vregs() == old(self).n_vregs() + set_gsize(segments@, *func, *reginfo),
            final(self).n_groups() == old(self).n_groups() + (if set_gsize(
                segments@,
                *func,
                *reginfo,
            ) > 1 {
                1int
            } else {
                0int
            }),
            final(self).n_pool_segments() == old(self).n_pool_segments() + segments@.len(),
            built_set_ok(
                *final(self),
                old(self).n_vregs(),
                old(self).n_groups(),
                segments@,
                set_bank(segments@, *func),
                *reginfo,
            ),
            forall|i: int|
                0 <= i < old(self).n_vregs() ==> #[trigger] final(self).vreg_at(i) == old(
                    self,
                ).vreg_at(i),
            forall|i: int|
                0 <= i < old(self).n_vregs() ==> #[trigger] final(self).segs_at(i) == old(
                    self,
                ).segs_at(i),
            forall|g2: int|
                0 <= g2 < old(self).n_groups() ==> #[trigger] final(self).members_at(g2) == old(
                    self,
                ).members_at(g2),
            final(new_vregs)@ == old(new_vregs)@ + Seq::new(
                set_gsize(segments@, *func, *reginfo) as nat,
                |j: int| VirtReg((old(self).n_vregs() + j) as u32),
            ),
    {
        let bank = func.value_bank(segments[0].value);
        virt_reg_builder.build(bank, reginfo, self, new_vregs, segments);
    }

    /// Builds the initial virtual registers from the value live ranges: the
    /// bulk entry run once per function.  It resets the store, the builder's
    /// scratch state and the spill allocator, drains the live-range source
    /// one value set at a time, registers each set's live-range union and
    /// spill-slot size with the spill allocator before building it, and
    /// finally records summary counters.
    #[verifier::loop_isolation(false)]
    #[verifier::rlimit(100)]
    pub fn build_initial_vregs(
        &mut self,
        func: &FuncInfo,
        reginfo: &RegInfoTable,
        value_live_ranges: &mut ValueLiveRanges,
        spill_allocator: &mut SpillAllocator,
        virt_reg_builder: &mut VirtRegBuilder,
        stats: &mut Stats,
    )
        requires
            reginfo.wf(),
            sets_wf(old(value_live_ranges).value_sets@, *func, *reginfo),
            vregs_before(
                old(value_live_ranges).value_sets@,
                *func,
                *reginfo,
                old(value_live_ranges).value_sets@.len() as int,
            ) <= MAX_ENTITIES as int,
            segments_before(
                old(value_live_ranges).value_sets@,
                old(value_live_ranges).value_sets@.len() as int,
            ) <= usize::MAX as int,
        ensures
            final(self).inv(),
            final(self).complete(),
            final(self).classes_wf(*reginfo),
            final(self).n_vregs() == vregs_before(
                old(value_live_ranges).value_sets@,
                *func,
                *reginfo,
                old(value_live_ranges).value_sets@.len() as int,
            ),
            final(self).n_groups() == groups_before(
                old(value_live_ranges).value_sets@,
                *func,
                *reginfo,
                old(value_live_ranges).value_sets@.len() as int,
            ),
            final(self).n_pool_segments() == segments_before(
                old(value_live_ranges).value_sets@,
                old(value_live_ranges).value_sets@.len() as int,
            ),
            forall|j: int|
                0 <= j < old(value_live_ranges).value_sets@.len() ==> built_set_ok(
                    *final(self),
                    vregs_before(old(value_live_ranges).value_sets@, *func, *reginfo, j),
                    groups_before(old(value_live_ranges).value_sets@, *func, *reginfo, j),
                    (#[trigger] old(value_live_ranges).value_sets@[j]).1@,
                    set_bank(old(value_live_ranges).value_sets@[j].1@, *func),
                    *reginfo,
                ),
            final(value_live_ranges).value_sets@.len() == 0,
            final(spill_allocator).reservations@ == Seq::new(
                old(value_live_ranges).value_sets@.len(),
                |j: int|
                    SpillSetReservation {
                        set: old(value_live_ranges).value_sets@[j].0,
                        size: reginfo.spillslot_size_of(
                            set_bank(old(value_live_ranges).value_sets@[j].1@, *func),
                        ),
                        range: LiveRangeSegment {
                            from: old(value_live_ranges).value_sets@[j].1@[0].live_range.from,
                            to: old(value_live_ranges).value_sets@[j].1@.last().live_range.to,
                        },
                    },
            ),
            final(stats).initial_vregs as int == final(self).n_vregs(),
            final(stats).initial_vreg_groups as int == final(self).n_groups(),
            final(stats).initial_vreg_segments as int == final(self).n_pool_segments(),
    {
        let ghost sets = old(value_live_ranges).value_sets@;
        self.clear();
        virt_reg_builder.clear();
        spill_allocator.clear();

        let taken = value_live_ranges.take_all_value_sets();
        let n_sets = taken.len();
        let mut scratch_out: Vec<VirtReg> = Vec::new();
        let mut i: usize = 0;
        while i < n_sets
            invariant
                i <= n_sets,
                n_sets == sets.len(),
                taken@ == sets,
                self.inv(),
                self.complete(),
                self.classes_wf(*reginfo),
                self.n_vregs() == vregs_before(sets, *func, *reginfo, i as int),
                self.n_groups() == groups_before(sets, *func, *reginfo, i as int),
                self.n_pool_segments() == segments_before(sets, i as int),
                self.n_pool_members() == members_before(sets, *func, *reginfo, i as int),
                forall|j: int|
                    0 <= j < i ==> built_set_ok(
                        *self,
                        vregs_before(sets, *func, *reginfo, j),
                        groups_before(sets, *func, *reginfo, j),
                        (#[trigger] sets[j]).1@,
                        set_bank(sets[j].1@, *func),
                        *reginfo,
                    ),
                spill_allocator.reservations@ == Seq::new(
                    i as nat,
                    |j: int|
                        SpillSetReservation {
                            set: sets[j].0,
                            size: reginfo.spillslot_size_of(set_bank(sets[j].1@, *func)),
                            range: LiveRangeSegment {
                                from: sets[j].1@[0].live_range.from,
                                to: sets[j].1@.last().live_range.to,
                            },
                        },
                ),
            decreases n_sets - i,
        {
            proof {
                assert(value_set_wf(sets[i as int].1@, *func, *reginfo));
                lemma_prefix_counts(sets, *func, *reginfo, i as int);
                lemma_prefix_counts(sets, *func, *reginfo, i as int + 1);
            }
            let pair: &(crate::entities::ValueSet, Vec<ValueSegment>) = &taken[i];
            let set_id = pair.0;
            let segs: &Vec<ValueSegment> = &pair.1;
            let bank = func.value_bank(segs[0].value);
            let spillslot_size = reginfo.spillslot_size(bank);
            let last = segs.len() - 1;
            let live_range_union = LiveRangeSegment {
                from: segs[0].live_range.from,
                to: segs[last].live_range.to,
            };
            spill_allocator.set_range(set_id, spillslot_size, live_range_union);
            let ghost pre = *self;
            virt_reg_builder.build(bank, reginfo, self, &mut scratch_out, segs);
            proof {
                assert(spill_allocator.reservations@ =~= Seq::new(
                    (i + 1) as nat,
                    |j: int|
                        SpillSetReservation {
                            set: sets[j].0,
                            size: reginfo.spillslot_size_of(set_bank(sets[j].1@, *func)),
                            range: LiveRangeSegment {
                                from: sets[j].1@[0].live_range.from,
                                to: sets[j].1@.last().live_range.to,
                            },
                        },
                ));
                assert forall|j: int| 0 <= j < i + 1 implies built_set_ok(
                    *self,
                    vregs_before(sets, *func, *reginfo, j),
                    groups_before(sets, *func, *reginfo, j),
                    (#[trigger] sets[j]).1@,
                    set_bank(sets[j].1@, *func),
                    *reginfo,
                ) by {
                    let bj = vregs_before(sets, *func, *reginfo, j);
                    let gj = groups_before(sets, *func, *reginfo, j);
                    let ssj = sets[j].1@;
                    let gs = set_gsize(ssj, *func, *reginfo);
                    if j < i {
                        assert(built_set_ok(pre, bj, gj, ssj, set_bank(ssj, *func), *reginfo));
                        lemma_prefix_counts(sets, *func, *reginfo, j);
                        lemma_prefix_counts(sets, *func, *reginfo, j + 1);
                        lemma_prefix_mono(sets, *func, *reginfo, j + 1, i as int);
                        assert forall|kk: int| 0 <= kk < gs implies built_vreg_ok(
                            *self,
                            bj,
                            gj,
                            ssj,
                            set_bank(ssj, *func),
                            *reginfo,
                            kk,
                        ) by {
                            assert(built_vreg_ok(
                                pre,
                                bj,
                                gj,
                                ssj,
                                set_bank(ssj, *func),
                                *reginfo,
                                kk,
                            ));
                            assert(bj + kk < vregs_before(sets, *func, *reginfo, j + 1));
                            assert(self.vreg_at(bj + kk) == pre.vreg_at(bj + kk));
                            assert(self.segs_at(bj + kk) == pre.segs_at(bj + kk));
                        }
                        if gs > 1 {
                            assert(gj < groups_before(sets, *func, *reginfo, j + 1));
                            assert(self.members_at(gj) == pre.members_at(gj));
                        }
                    } else {
                        assert(built_set_ok(
                            *self,
                            pre.n_vregs(),
                            pre.n_groups(),
                            segs@,
                            bank,
                            *reginfo,
                        ));
                    }
                }
            }
            i += 1;
        }
        proof {
            assert(taken@.take(n_sets as int) =~= sets);
        }
        stats.initial_vregs = self.num_virt_regs();
        stats.initial_vreg_groups = self.num_groups();
        stats.initial_vreg_segments = self.total_segment_count();
    }
}

} // verus!
