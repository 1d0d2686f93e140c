use vreg_store::builder::VirtRegBuilder;
use vreg_store::context::{FuncInfo, RegBankInfo, RegClassInfo, RegInfoTable};
use vreg_store::entities::{RegBank, RegClass, Value, ValueSet, VirtReg, VirtRegGroup};
use vreg_store::segments::{LiveRangeSegment, ValueSegment};
use vreg_store::spill_allocator::SpillAllocator;
use vreg_store::stats::Stats;
use vreg_store::value_live_ranges::ValueLiveRanges;
use vreg_store::virt_regs::VirtRegs;

/// Bank 0: a plain integer bank (class 0, group size 1, spill-slot size 8).
/// Bank 1: a paired bank (class 1, group size 2, spill-slot size 16).
fn reginfo() -> RegInfoTable {
    RegInfoTable {
        banks: vec![
            RegBankInfo { spillslot_size: 8, class: RegClass(0) },
            RegBankInfo { spillslot_size: 16, class: RegClass(1) },
        ],
        classes: vec![RegClassInfo { group_size: 1 }, RegClassInfo { group_size: 2 }],
    }
}

fn func(banks: Vec<u32>) -> FuncInfo {
    FuncInfo { value_banks: banks.into_iter().map(RegBank).collect() }
}

fn seg(from: u32, to: u32, value: u32, freq: u32, hint: bool, gi: u8) -> ValueSegment {
    ValueSegment {
        live_range: LiveRangeSegment { from, to },
        value: Value(value),
        use_freq: freq,
        has_fixed_hint: hint,
        group_index: gi,
    }
}

/// Scenario A: one value with two disjoint segments on the integer bank; the
/// union range is [0,14), the slot size 8, and the built register's segment
/// list is exactly the input, in order.
#[test]
fn scenario_single_value_two_segments() {
    let f = func(vec![0]);
    let ri = reginfo();
    let segments = vec![seg(0, 4, 0, 6, false, 0), seg(10, 14, 0, 10, true, 0)];
    let mut vlr = ValueLiveRanges::new();
    vlr.push_value_set(ValueSet(7), segments.clone());

    let mut store = VirtRegs::new();
    let mut builder = VirtRegBuilder::new();
    let mut spill = SpillAllocator::new();
    let mut stats = Stats::new();
    store.build_initial_vregs(&f, &ri, &mut vlr, &mut spill, &mut builder, &mut stats);

    assert_eq!(store.num_virt_regs(), 1);
    assert_eq!(store.num_groups(), 0);
    assert_eq!(store.segments(VirtReg(0)), &segments[..]);

    assert_eq!(spill.reservations.len(), 1);
    assert_eq!(spill.reservations[0].set, ValueSet(7));
    assert_eq!(spill.reservations[0].size, 8);
    assert_eq!(spill.reservations[0].range, LiveRangeSegment { from: 0, to: 14 });

    let data = store.vreg_data(VirtReg(0));
    assert_eq!(data.class, RegClass(0));
    assert_eq!(data.group_index, 0);
    assert_eq!(data.group, None);
    assert!(data.has_fixed_hint);
    // summed frequency 16 over 8 covered points
    assert_eq!(data.spill_weight, 2);

    // the source was drained
    assert_eq!(vlr.value_sets.len(), 0);

    assert_eq!(stats.initial_vregs, 1);
    assert_eq!(stats.initial_vreg_groups, 0);
    assert_eq!(stats.initial_vreg_segments, 2);
}

/// Scenario B: a value set on the paired bank builds a 2-wide group whose
/// members carry group indices 0 and 1 and one shared spill weight, the
/// minimum of the independently computed member weights.
#[test]
fn scenario_paired_group() {
    let f = func(vec![1, 1]);
    let ri = reginfo();
    let segments = vec![seg(0, 4, 0, 8, false, 0), seg(4, 8, 1, 4, true, 1)];
    let mut vlr = ValueLiveRanges::new();
    vlr.push_value_set(ValueSet(0), segments.clone());

    let mut store = VirtRegs::new();
    let mut builder = VirtRegBuilder::new();
    let mut spill = SpillAllocator::new();
    let mut stats = Stats::new();
    store.build_initial_vregs(&f, &ri, &mut vlr, &mut spill, &mut builder, &mut stats);

    assert_eq!(store.num_virt_regs(), 2);
    assert_eq!(store.num_groups(), 1);
    let members = store.group_members(VirtRegGroup(0));
    assert_eq!(members, &[VirtReg(0), VirtReg(1)][..]);

    let d0 = store.vreg_data(VirtReg(0)).clone();
    let d1 = store.vreg_data(VirtReg(1)).clone();
    assert_eq!(d0.group_index, 0);
    assert_eq!(d1.group_index, 1);
    assert_eq!(d0.group, Some(VirtRegGroup(0)));
    assert_eq!(d1.group, Some(VirtRegGroup(0)));
    assert_eq!(d0.class, RegClass(1));
    assert_eq!(d1.class, RegClass(1));
    // member 0 density 8/4 = 2, member 1 density 4/4 = 1; both get the minimum
    assert_eq!(d0.spill_weight, 1);
    assert_eq!(d1.spill_weight, d0.spill_weight);
    // the hint flag is per member
    assert!(!d0.has_fixed_hint);
    assert!(d1.has_fixed_hint);
    // each member owns exactly its own segments
    assert_eq!(store.segments(VirtReg(0)), &segments[0..1]);
    assert_eq!(store.segments(VirtReg(1)), &segments[1..2]);

    assert_eq!(spill.reservations[0].size, 16);
    assert_eq!(stats.initial_vregs, 2);
    assert_eq!(stats.initial_vreg_groups, 1);
    assert_eq!(stats.initial_vreg_segments, 2);
}

/// Segment lists of every built register are non-empty, sorted by start and
/// pairwise disjoint, with gaps allowed.
#[test]
fn segments_sorted_disjoint() {
    let f = func(vec![0]);
    let ri = reginfo();
    let segments = vec![
        seg(0, 2, 0, 1, false, 0),
        seg(5, 9, 0, 1, false, 0),
        seg(9, 11, 0, 1, false, 0),
    ];
    let mut vlr = ValueLiveRanges::new();
    vlr.push_value_set(ValueSet(0), segments);

    let mut store = VirtRegs::new();
    let mut builder = VirtRegBuilder::new();
    let mut spill = SpillAllocator::new();
    let mut stats = Stats::new();
    store.build_initial_vregs(&f, &ri, &mut vlr, &mut spill, &mut builder, &mut stats);

    for v in store.virt_regs() {
        let segs = store.segments(v);
        assert!(!segs.is_empty());
        for w in segs.windows(2) {
            assert!(w[0].live_range.to <= w[1].live_range.from);
            assert!(w[0].live_range.from < w[1].live_range.from);
        }
        for s in segs {
            assert!(s.live_range.from < s.live_range.to);
        }
    }
}

/// A cleared store rebuilt from a fresh source shows no residue of the
/// earlier pass: counts, handles and groups reflect only the new input.
#[test]
fn clear_then_rebuild_leaves_no_residue() {
    let f = func(vec![0, 1, 1]);
    let ri = reginfo();
    let mut store = VirtRegs::new();
    let mut builder = VirtRegBuilder::new();
    let mut spill = SpillAllocator::new();
    let mut stats = Stats::new();

    // first pass: one plain register and one 2-wide group
    let mut vlr = ValueLiveRanges::new();
    vlr.push_value_set(ValueSet(0), vec![seg(0, 4, 0, 1, false, 0)]);
    vlr.push_value_set(ValueSet(1), vec![seg(0, 4, 1, 1, false, 0), seg(4, 8, 2, 1, false, 1)]);
    store.build_initial_vregs(&f, &ri, &mut vlr, &mut spill, &mut builder, &mut stats);
    assert_eq!(store.num_virt_regs(), 3);
    assert_eq!(store.num_groups(), 1);

    // second pass over a smaller source
    let mut vlr2 = ValueLiveRanges::new();
    vlr2.push_value_set(ValueSet(2), vec![seg(1, 3, 0, 5, false, 0)]);
    store.build_initial_vregs(&f, &ri, &mut vlr2, &mut spill, &mut builder, &mut stats);

    assert_eq!(store.num_virt_regs(), 1);
    assert_eq!(store.virt_regs(), vec![VirtReg(0)]);
    assert_eq!(store.groups(), Vec::<VirtRegGroup>::new());
    assert_eq!(store.num_groups(), 0);
    assert_eq!(store.segments(VirtReg(0)), &[seg(1, 3, 0, 5, false, 0)][..]);
    // the spill allocator was reset too
    assert_eq!(spill.reservations.len(), 1);
    assert_eq!(spill.reservations[0].set, ValueSet(2));
    assert_eq!(stats.initial_vregs, 1);
    assert_eq!(stats.initial_vreg_groups, 0);
    assert_eq!(stats.initial_vreg_segments, 1);
}

/// An explicit clear empties the store.
#[test]
fn clear_empties_the_store() {
    let f = func(vec![0]);
    let ri = reginfo();
    let mut store = VirtRegs::new();
    let mut builder = VirtRegBuilder::new();
    let mut out: Vec<VirtReg> = Vec::new();
    let segments = vec![seg(0, 4, 0, 1, false, 0)];
    store.create_vreg_from_segments(&segments, &f, &ri, &mut builder, &mut out);
    assert_eq!(store.num_virt_regs(), 1);
    store.clear();
    assert_eq!(store.num_virt_regs(), 0);
    assert_eq!(store.num_groups(), 0);
    assert_eq!(store.virt_regs(), Vec::<VirtReg>::new());
}

/// Non-mutating accessor calls between mutations return identical content in
/// identical order.
#[test]
fn accessors_are_stable_between_mutations() {
    let f = func(vec![1, 1]);
    let ri = reginfo();
    let segments = vec![seg(0, 4, 0, 8, false, 0), seg(4, 8, 1, 4, false, 1)];
    let mut vlr = ValueLiveRanges::new();
    vlr.push_value_set(ValueSet(0), segments);

    let mut store = VirtRegs::new();
    let mut builder = VirtRegBuilder::new();
    let mut spill = SpillAllocator::new();
    let mut stats = Stats::new();
    store.build_initial_vregs(&f, &ri, &mut vlr, &mut spill, &mut builder, &mut stats);

    let first: Vec<ValueSegment> = store.segments(VirtReg(0)).to_vec();
    let second: Vec<ValueSegment> = store.segments(VirtReg(0)).to_vec();
    assert_eq!(first, second);
    let m1: Vec<VirtReg> = store.group_members(VirtRegGroup(0)).to_vec();
    let m2: Vec<VirtReg> = store.group_members(VirtRegGroup(0)).to_vec();
    assert_eq!(m1, m2);
}
