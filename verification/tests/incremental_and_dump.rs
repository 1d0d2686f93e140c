use vreg_store::builder::VirtRegBuilder;
use vreg_store::context::{FuncInfo, RegBankInfo, RegClassInfo, RegInfoTable};
use vreg_store::entities::{RegBank, RegClass, Value, VirtReg, VirtRegGroup};
use vreg_store::segments::{LiveRangeSegment, ValueSegment};
use vreg_store::virt_regs::{DumpLine, VirtRegs};

fn reginfo() -> RegInfoTable {
    RegInfoTable {
        banks: vec![
            RegBankInfo { spillslot_size: 8, class: RegClass(0) },
            RegBankInfo { spillslot_size: 16, class: RegClass(1) },
        ],
        classes: vec![RegClassInfo { group_size: 1 }, RegClassInfo { group_size: 2 }],
    }
}

fn func(banks: Vec<u32>) -> FuncInfo {
    FuncInfo { value_banks: banks.into_iter().map(RegBank).collect() }
}

fn seg(from: u32, to: u32, value: u32, freq: u32, hint: bool, gi: u8) -> ValueSegment {
    ValueSegment {
        live_range: LiveRangeSegment { from, to },
        value: Value(value),
        use_freq: freq,
        has_fixed_hint: hint,
        group_index: gi,
    }
}

/// Scenario C: two successive incremental calls with disjoint inputs produce
/// disjoint handle sets, and each call appends exactly its own handles to its
/// own collector.
#[test]
fn incremental_collectors_stay_disjoint() {
    let f = func(vec![0, 0]);
    let ri = reginfo();
    let mut store = VirtRegs::new();
    let mut builder = VirtRegBuilder::new();

    let mut out_a: Vec<VirtReg> = Vec::new();
    store.create_vreg_from_segments(
        &vec![seg(0, 4, 0, 2, false, 0)],
        &f,
        &ri,
        &mut builder,
        &mut out_a,
    );
    let mut out_b: Vec<VirtReg> = Vec::new();
    store.create_vreg_from_segments(
        &vec![seg(8, 12, 1, 2, false, 0)],
        &f,
        &ri,
        &mut builder,
        &mut out_b,
    );

    assert_eq!(out_a, vec![VirtReg(0)]);
    assert_eq!(out_b, vec![VirtReg(1)]);
    assert!(out_a.iter().all(|v| !out_b.contains(v)));
    assert_eq!(store.num_virt_regs(), 2);
    assert_eq!(store.segments(VirtReg(0)), &[seg(0, 4, 0, 2, false, 0)][..]);
    assert_eq!(store.segments(VirtReg(1)), &[seg(8, 12, 1, 2, false, 0)][..]);
}

/// A reused collector only ever grows by the handles of the call at hand —
/// nothing from an earlier call leaks in again.
#[test]
fn reused_collector_is_append_only() {
    let f = func(vec![0, 0]);
    let ri = reginfo();
    let mut store = VirtRegs::new();
    let mut builder = VirtRegBuilder::new();

    let mut out: Vec<VirtReg> = Vec::new();
    store.create_vreg_from_segments(
        &vec![seg(0, 4, 0, 2, false, 0)],
        &f,
        &ri,
        &mut builder,
        &mut out,
    );
    assert_eq!(out, vec![VirtReg(0)]);
    store.create_vreg_from_segments(
        &vec![seg(8, 12, 1, 2, false, 0)],
        &f,
        &ri,
        &mut builder,
        &mut out,
    );
    assert_eq!(out, vec![VirtReg(0), VirtReg(1)]);
}

/// An incremental call on the paired bank builds the whole group at once.
#[test]
fn incremental_group_build() {
    let f = func(vec![1, 1]);
    let ri = reginfo();
    let mut store = VirtRegs::new();
    let mut builder = VirtRegBuilder::new();

    let mut out: Vec<VirtReg> = Vec::new();
    store.create_vreg_from_segments(
        &vec![seg(0, 4, 0, 6, false, 0), seg(6, 10, 1, 2, true, 1)],
        &f,
        &ri,
        &mut builder,
        &mut out,
    );
    assert_eq!(out, vec![VirtReg(0), VirtReg(1)]);
    assert_eq!(store.num_groups(), 1);
    assert_eq!(store.group_members(VirtRegGroup(0)), &[VirtReg(0), VirtReg(1)][..]);
    // densities 6/4 = 1 and 2/4 = 0; the shared weight is the minimum
    assert_eq!(store.vreg_data(VirtReg(0)).spill_weight, 0);
    assert_eq!(store.vreg_data(VirtReg(1)).spill_weight, 0);
}

/// A filter that selects nothing emits no register lines and no group lines.
#[test]
fn dump_with_empty_filter_emits_nothing() {
    let f = func(vec![0, 1, 1]);
    let ri = reginfo();
    let mut store = VirtRegs::new();
    let mut builder = VirtRegBuilder::new();
    let mut out: Vec<VirtReg> = Vec::new();
    store.create_vreg_from_segments(&vec![seg(0, 4, 0, 2, false, 0)], &f, &ri, &mut builder, &mut out);
    store.create_vreg_from_segments(
        &vec![seg(0, 4, 1, 2, false, 0), seg(4, 8, 2, 2, false, 1)],
        &f,
        &ri,
        &mut builder,
        &mut out,
    );

    let lines = store.dump(|_| false);
    assert_eq!(lines.len(), 0);
}

/// A filter that selects everything emits one line per register, then one
/// line per group, keyed by its first member, in handle order.
#[test]
fn dump_with_full_filter_lists_everything() {
    let f = func(vec![0, 1, 1]);
    let ri = reginfo();
    let mut store = VirtRegs::new();
    let mut builder = VirtRegBuilder::new();
    let mut out: Vec<VirtReg> = Vec::new();
    let solo = vec![seg(0, 4, 0, 8, true, 0)];
    store.create_vreg_from_segments(&solo, &f, &ri, &mut builder, &mut out);
    store.create_vreg_from_segments(
        &vec![seg(0, 4, 1, 2, false, 0), seg(4, 8, 2, 2, false, 1)],
        &f,
        &ri,
        &mut builder,
        &mut out,
    );

    let lines = store.dump(|_| true);
    assert_eq!(lines.len(), 4);
    match &lines[0] {
        DumpLine::Reg { vreg, class, spill_weight, segments } => {
            assert_eq!(*vreg, VirtReg(0));
            assert_eq!(*class, RegClass(0));
            assert_eq!(*spill_weight, 2);
            assert_eq!(segments, &solo);
        }
        other => panic!("expected a register line, got {:?}", other),
    }
    assert!(matches!(lines[1], DumpLine::Reg { vreg: VirtReg(1), .. }));
    assert!(matches!(lines[2], DumpLine::Reg { vreg: VirtReg(2), .. }));
    match &lines[3] {
        DumpLine::Group { group, members } => {
            assert_eq!(*group, VirtRegGroup(0));
            assert_eq!(members, &vec![VirtReg(1), VirtReg(2)]);
        }
        other => panic!("expected a group line, got {:?}", other),
    }
}

/// A filter on a single register picks out exactly its line; the group line
/// follows the first member only.
#[test]
fn dump_filters_by_first_member() {
    let f = func(vec![1, 1]);
    let ri = reginfo();
    let mut store = VirtRegs::new();
    let mut builder = VirtRegBuilder::new();
    let mut out: Vec<VirtReg> = Vec::new();
    store.create_vreg_from_segments(
        &vec![seg(0, 4, 0, 2, false, 0), seg(4, 8, 1, 2, false, 1)],
        &f,
        &ri,
        &mut builder,
        &mut out,
    );

    // the second member is not the group key, so no group line appears
    let lines = store.dump(|v: VirtReg| v == VirtReg(1));
    assert_eq!(lines.len(), 1);
    assert!(matches!(lines[0], DumpLine::Reg { vreg: VirtReg(1), .. }));

    // the first member is the key
    let lines = store.dump(|v: VirtReg| v == VirtReg(0));
    assert_eq!(lines.len(), 2);
    assert!(matches!(lines[0], DumpLine::Reg { vreg: VirtReg(0), .. }));
    assert!(matches!(lines[1], DumpLine::Group { group: VirtRegGroup(0), .. }));
}

/// An empty live-range source builds an empty store.
#[test]
fn empty_source_builds_nothing() {
    let f = func(vec![]);
    let ri = reginfo();
    let mut store = VirtRegs::new();
    let mut builder = VirtRegBuilder::new();
    let mut spill = vreg_store::spill_allocator::SpillAllocator::new();
    let mut stats = vreg_store::stats::Stats::new();
    let mut vlr = vreg_store::value_live_ranges::ValueLiveRanges::new();
    store.build_initial_vregs(&f, &ri, &mut vlr, &mut spill, &mut builder, &mut stats);
    assert_eq!(store.num_virt_regs(), 0);
    assert_eq!(store.num_groups(), 0);
    assert_eq!(spill.reservations.len(), 0);
    assert_eq!(stats.initial_vregs, 0);
    assert_eq!(stats.initial_vreg_segments, 0);
}
