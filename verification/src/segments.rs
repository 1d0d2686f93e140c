//! Live-range segments and the specification functions that describe lists
//! of them: ordering, disjointness, partition by group position, and the
//! use-density sums from which spill weights are computed.

use vstd::prelude::*;

use crate::entities::Value;

verus! {

/// A contiguous half-open interval `[from, to)` of program points.
#[derive(Clone, Copy, PartialEq, Eq, Structural, Debug)]
pub struct LiveRangeSegment {
    pub from: u32,
    pub to: u32,
}

/// A maximal contiguous sub-interval of liveness for one value, together with
/// the facts about it that virtual-register construction reads: the total use
/// frequency inside the interval, whether any use carries a fixed-register
/// hint, and the position the value occupies within a register group (0 for
/// values of an ungrouped bank), all decided by the upstream liveness,
/// use-collection and coalescing stages.
#[derive(Clone, Copy, PartialEq, Eq, Structural, Debug)]
pub struct ValueSegment {
    pub live_range: LiveRangeSegment,
    pub value: Value,
    pub use_freq: u32,
    pub has_fixed_hint: bool,
    pub group_index: u8,
}

/// Every segment covers at least one program point.
pub open spec fn all_nonempty(ss: Seq<ValueSegment>) -> bool {
    forall|i: int|
        0 <= i < ss.len() ==> (#[trigger] ss[i]).live_range.from < ss[i].live_range.to
}

/// Segments are sorted ascending by range start and pairwise disjoint: any
/// earlier segment ends no later than a later one begins.
pub open spec fn ordered_disjoint(ss: Seq<ValueSegment>) -> bool {
    forall|i: int, j: int|
        0 <= i < j < ss.len() ==> (#[trigger] ss[i]).live_range.to <= (#[trigger] ss[j]).live_range.from
}

/// The subsequence of `ss` made of the segments whose value sits at position
/// `k` of its register group, in the order they appear in `ss`.
pub open spec fn part_of(ss: Seq<ValueSegment>, k: int) -> Seq<ValueSegment>
    decreases ss.len(),
{
    if ss.len() == 0 {
        Seq::empty()
    } else {
        let rest = part_of(ss.drop_last(), k);
        if ss.last().group_index as int == k {
            rest.push(ss.last())
        } else {
            rest
        }
    }
}

/// Sum of the use frequencies of the segments.
pub open spec fn sum_freq(ss: Seq<ValueSegment>) -> int
    decreases ss.len(),
{
    if ss.len() == 0 {
        0
    } else {
        sum_freq(ss.drop_last()) + ss.last().use_freq
    }
}

/// Number of program points covered by the segments.
pub open spec fn covered_len(ss: Seq<ValueSegment>) -> int
    decreases ss.len(),
{
    if ss.len() == 0 {
        0
    } else {
        covered_len(ss.drop_last()) + (ss.last().live_range.to - ss.last().live_range.from)
    }
}

/// The spill weight of a virtual register that owns exactly `ss`: the summed
/// use frequency divided by the size of the covered live range.
pub open spec fn weight_of(ss: Seq<ValueSegment>) -> int {
    if covered_len(ss) == 0 {
        0
    } else {
        sum_freq(ss) / covered_len(ss)
    }
}

/// Minimum of the independently computed weights of the first `g` group
/// members' segment lists.
pub open spec fn min_weight(ss: Seq<ValueSegment>, g: int) -> int
    decreases g,
{
    if g <= 1 {
        weight_of(part_of(ss, 0))
    } else {
        let prev = min_weight(ss, g - 1);
        let w = weight_of(part_of(ss, g - 1));
        if w < prev {
            w
        } else {
            prev
        }
    }
}

/// Whether any segment of the list carries a fixed-register hint.
pub open spec fn has_hint(ss: Seq<ValueSegment>) -> bool {
    exists|i: int| 0 <= i < ss.len() && (#[trigger] ss[i]).has_fixed_hint
}

/// The partition member is a subsequence: every one of its segments occurs in
/// the full list, carries group position `k`, and the well-formedness of the
/// full list (non-empty ranges, ordering, disjointness) carries over.
pub proof fn lemma_part_of_props(ss: Seq<ValueSegment>, k: int)
    ensures
        part_of(ss, k).len() <= ss.len(),
        forall|m: int|
            0 <= m < part_of(ss, k).len() ==> (#[trigger] part_of(ss, k)[m]).group_index as int
                == k,
        forall|m: int|
            0 <= m < part_of(ss, k).len() ==> exists|j: int|
                0 <= j < ss.len() && #[trigger] part_of(ss, k)[m] == ss[j],
        all_nonempty(ss) ==> all_nonempty(part_of(ss, k)),
        ordered_disjoint(ss) ==> ordered_disjoint(part_of(ss, k)),
    decreases ss.len(),
{
    if ss.len() > 0 {
        let pre = ss.drop_last();
        lemma_part_of_props(pre, k);
        assert(forall|j: int| 0 <= j < pre.len() ==> pre[j] == ss[j]);
        let p = part_of(ss, k);
        let rest = part_of(pre, k);
        assert(forall|m: int|
            0 <= m < rest.len() ==> exists|j: int|
                0 <= j < ss.len() && #[trigger] rest[m] == ss[j]) by {
            assert forall|m: int| 0 <= m < rest.len() implies exists|j: int|
                0 <= j < ss.len() && #[trigger] rest[m] == ss[j] by {
                let j = choose|j: int| 0 <= j < pre.len() && rest[m] == pre[j];
                assert(rest[m] == ss[j]);
            }
        }
        if ss.last().group_index as int == k {
            assert(p == rest.push(ss.last()));
            assert(p[p.len() - 1] == ss[ss.len() - 1]);
            if ordered_disjoint(ss) {
                assert forall|m1: int, m2: int| 0 <= m1 < m2 < p.len() implies p[m1].live_range.to
                    <= p[m2].live_range.from by {
                    if m2 < p.len() - 1 {
                        assert(ordered_disjoint(pre));
                        assert(p[m1] == rest[m1] && p[m2] == rest[m2]);
                    } else {
                        let j = choose|j: int| 0 <= j < pre.len() && rest[m1] == pre[j];
                        assert(ss[j].live_range.to <= ss[ss.len() - 1].live_range.from);
                    }
                }
            }
        }
    }
}

/// How one appended segment changes the accumulated sums and the hint flag.
pub proof fn lemma_accum_push(p: Seq<ValueSegment>, x: ValueSegment)
    ensures
        sum_freq(p.push(x)) == sum_freq(p) + x.use_freq,
        covered_len(p.push(x)) == covered_len(p) + (x.live_range.to - x.live_range.from),
        has_hint(p.push(x)) == (has_hint(p) || x.has_fixed_hint),
{
    assert(p.push(x).drop_last() =~= p);
    assert(p.push(x).last() == x);
    if has_hint(p) {
        let i = choose|i: int| 0 <= i < p.len() && p[i].has_fixed_hint;
        assert(p.push(x)[i].has_fixed_hint);
    }
    if x.has_fixed_hint {
        assert(p.push(x)[p.len() as int].has_fixed_hint);
    }
    if has_hint(p.push(x)) {
        let i = choose|i: int| 0 <= i < p.push(x).len() && p.push(x)[i].has_fixed_hint;
        if i < p.len() {
            assert(p[i].has_fixed_hint);
        }
    }
}

/// How taking one more element of `ss` changes the partition member `k`.
pub proof fn lemma_part_of_take_step(ss: Seq<ValueSegment>, k: int, i: int)
    requires
        0 <= i < ss.len(),
    ensures
        ss[i].group_index as int == k ==> part_of(ss.take(i + 1), k) == part_of(
            ss.take(i),
            k,
        ).push(ss[i]),
        ss[i].group_index as int != k ==> part_of(ss.take(i + 1), k) == part_of(ss.take(i), k),
{
    assert(ss.take(i + 1).drop_last() =~= ss.take(i));
    assert(ss.take(i + 1).last() == ss[i]);
}

/// Combined length of the first `g` partition members.
pub open spec fn parts_len_sum(ss: Seq<ValueSegment>, g: int) -> int
    decreases g,
{
    if g <= 0 {
        0
    } else {
        parts_len_sum(ss, g - 1) + part_of(ss, g - 1).len()
    }
}

/// Appending one segment grows exactly the partition member it sits in.
pub proof fn lemma_parts_len_sum_push(ss: Seq<ValueSegment>, x: ValueSegment, g: int)
    ensures
        parts_len_sum(ss.push(x), g) == parts_len_sum(ss, g) + if (x.group_index as int) < g {
            1int
        } else {
            0int
        },
    decreases g,
{
    if g > 0 {
        lemma_parts_len_sum_push(ss, x, g - 1);
        assert(ss.push(x).drop_last() =~= ss);
    }
}

/// The first `g` partition members together hold every segment once, when
/// every segment's group position is below `g`.
pub proof fn lemma_parts_partition(ss: Seq<ValueSegment>, g: int)
    requires
        forall|i: int| 0 <= i < ss.len() ==> ((#[trigger] ss[i]).group_index as int) < g,
    ensures
        parts_len_sum(ss, g) == ss.len(),
    decreases ss.len(),
{
    if ss.len() == 0 {
        assert(ss =~= Seq::<ValueSegment>::empty());
        lemma_parts_len_sum_empty(g);
    } else {
        let pre = ss.drop_last();
        assert(forall|i: int| 0 <= i < pre.len() ==> pre[i] == ss[i]);
        lemma_parts_partition(pre, g);
        lemma_parts_len_sum_push(pre, ss.last(), g);
        assert(ss.last() == ss[ss.len() - 1]);
        assert((ss[ss.len() - 1].group_index as int) < g);
        assert(pre.push(ss.last()) =~= ss);
    }
}

/// The empty list has empty partition members.
pub proof fn lemma_parts_len_sum_empty(g: int)
    ensures
        parts_len_sum(Seq::<ValueSegment>::empty(), g) == 0,
    decreases g,
{
    if g > 0 {
        lemma_parts_len_sum_empty(g - 1);
    }
}

/// Earlier partition prefixes hold no more segments than later ones.
pub proof fn lemma_parts_len_sum_mono(ss: Seq<ValueSegment>, a: int, b: int)
    requires
        a <= b,
    ensures
        parts_len_sum(ss, a) <= parts_len_sum(ss, b),
    decreases b - a,
{
    if a < b {
        lemma_parts_len_sum_mono(ss, a, b - 1);
    }
}

/// Bounds on the accumulated sums: each is at most one 32-bit maximum per
/// segment, and a list of non-empty segments covers at least one point each.
pub proof fn lemma_sums_bounds(ss: Seq<ValueSegment>)
    ensures
        0 <= sum_freq(ss) <= ss.len() * 0xFFFF_FFFF,
        all_nonempty(ss) ==> ss.len() <= covered_len(ss) <= ss.len() * 0xFFFF_FFFF,
    decreases ss.len(),
{
    if ss.len() > 0 {
        let pre = ss.drop_last();
        assert(forall|i: int| 0 <= i < pre.len() ==> pre[i] == ss[i]);
        if all_nonempty(ss) {
            assert(all_nonempty(pre));
            assert(ss[ss.len() - 1].live_range.from < ss[ss.len() - 1].live_range.to);
        }
        lemma_sums_bounds(pre);
        assert(pre.len() * 0xFFFF_FFFF + 0xFFFF_FFFF == ss.len() * 0xFFFF_FFFF) by (nonlinear_arith)
            requires pre.len() + 1 == ss.len();
    }
}

} // verus!
