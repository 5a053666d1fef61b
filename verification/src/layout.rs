//! The address span that holds every loadable segment.

use vstd::prelude::*;
use vstd::seq_lib::{to_multiset_contains, to_multiset_len};
use crate::image::ProgramHeader;

verus! {

/// The contiguous range `[base, base + span)` to reserve.
#[derive(Clone, Copy, Debug, PartialEq, Eq, Structural)]
pub struct LoadPlan {
    /// Lowest address of any segment.
    pub base: u64,
    /// Distance from `base` to the highest end of any segment.
    pub span: u64,
}

/// The least `p_vaddr` among `segs`.
pub open spec fn lowest_address(segs: Seq<ProgramHeader>) -> int
    decreases segs.len(),
{
    if segs.len() == 0 {
        0
    } else if segs.len() == 1 {
        segs[0].p_vaddr as int
    } else {
        let rest = lowest_address(segs.drop_last());
        if segs.last().p_vaddr < rest {
            segs.last().p_vaddr as int
        } else {
            rest
        }
    }
}

/// The greatest `p_vaddr + p_memsz` among `segs`.
pub open spec fn highest_end(segs: Seq<ProgramHeader>) -> int
    decreases segs.len(),
{
    if segs.len() == 0 {
        0
    } else if segs.len() == 1 {
        segs[0].end()
    } else {
        let rest = highest_end(segs.drop_last());
        if segs.last().end() > rest {
            segs.last().end()
        } else {
            rest
        }
    }
}

/// Whether every segment ends within the address space.
pub open spec fn ends_fit(segs: Seq<ProgramHeader>) -> bool {
    forall|i: int| 0 <= i < segs.len() ==> (#[trigger] segs[i]).end() <= u64::MAX
}

/// The plan for `segs`: from the lowest address to the highest end.
pub open spec fn plan_of(segs: Seq<ProgramHeader>) -> LoadPlan {
    LoadPlan {
        base: lowest_address(segs) as u64,
        span: (highest_end(segs) - lowest_address(segs)) as u64,
    }
}

/// `lowest_address` is the minimum: no segment lies below it and one segment
/// starts at it.
pub proof fn lemma_lowest_is_minimum(segs: Seq<ProgramHeader>)
    requires
        segs.len() > 0,
    ensures
        forall|i: int| 0 <= i < segs.len() ==> lowest_address(segs) <= (#[trigger] segs[i]).p_vaddr,
        exists|i: int| 0 <= i < segs.len() && lowest_address(segs) == (#[trigger] segs[i]).p_vaddr,
    decreases segs.len(),
{
    if segs.len() > 1 {
        let front = segs.drop_last();
        lemma_lowest_is_minimum(front);
        assert forall|i: int| 0 <= i < segs.len() implies lowest_address(segs) <= (
        #[trigger] segs[i]).p_vaddr by {
            if i < front.len() {
                assert(front[i] == segs[i]);
            }
        }
        let k = choose|k: int| 0 <= k < front.len() && lowest_address(front) == front[k].p_vaddr;
        assert(front[k] == segs[k]);
        let last = segs.len() - 1;
        assert(lowest_address(segs) == segs[k].p_vaddr || lowest_address(segs)
            == segs[last].p_vaddr);
    } else {
        assert(lowest_address(segs) == segs[0].p_vaddr);
    }
}

/// `highest_end` is the maximum: no segment ends above it and one segment
/// ends at it.
pub proof fn lemma_highest_is_maximum(segs: Seq<ProgramHeader>)
    requires
        segs.len() > 0,
    ensures
        forall|i: int| 0 <= i < segs.len() ==> (#[trigger] segs[i]).end() <= highest_end(segs),
        exists|i: int| 0 <= i < segs.len() && highest_end(segs) == (#[trigger] segs[i]).end(),
    decreases segs.len(),
{
    if segs.len() > 1 {
        let front = segs.drop_last();
        lemma_highest_is_maximum(front);
        assert forall|i: int| 0 <= i < segs.len() implies (#[trigger] segs[i]).end()
            <= highest_end(segs) by {
            if i < front.len() {
                assert(front[i] == segs[i]);
            }
        }
        let k = choose|k: int| 0 <= k < front.len() && highest_end(front) == front[k].end();
        assert(front[k] == segs[k]);
        let last = segs.len() - 1;
        assert(highest_end(segs) == segs[k].end() || highest_end(segs) == segs[last].end());
    } else {
        assert(highest_end(segs) == segs[0].end());
    }
}

/// The plan covers every segment: each one lies within `[base, base + span)`.
pub proof fn lemma_plan_covers(segs: Seq<ProgramHeader>, i: int)
    requires
        ends_fit(segs),
        0 <= i < segs.len(),
    ensures
        plan_of(segs).base <= segs[i].p_vaddr,
        segs[i].end() <= plan_of(segs).base + plan_of(segs).span,
        plan_of(segs).base == lowest_address(segs),
        plan_of(segs).base + plan_of(segs).span == highest_end(segs),
{
    lemma_lowest_is_minimum(segs);
    lemma_highest_is_maximum(segs);
    let k = choose|k: int| 0 <= k < segs.len() && highest_end(segs) == (#[trigger] segs[k]).end();
    assert(segs[k].end() <= u64::MAX);
}

/// The plan does not depend on the order of the segments: two sequences that
/// hold the same segments, each as often as the other, have the same plan.
pub proof fn lemma_plan_order_independent(a: Seq<ProgramHeader>, b: Seq<ProgramHeader>)
    requires
        a.len() > 0,
        a.to_multiset() == b.to_multiset(),
    ensures
        lowest_address(a) == lowest_address(b),
        highest_end(a) == highest_end(b),
        plan_of(a) == plan_of(b),
{
    to_multiset_len(a);
    to_multiset_len(b);
    lemma_lowest_is_minimum(a);
    lemma_lowest_is_minimum(b);
    lemma_highest_is_maximum(a);
    lemma_highest_is_maximum(b);
    assert forall|x: ProgramHeader| a.contains(x) <==> b.contains(x) by {
        to_multiset_contains(a, x);
        to_multiset_contains(b, x);
    }
    let la = choose|i: int| 0 <= i < a.len() && lowest_address(a) == (#[trigger] a[i]).p_vaddr;
    let lb = choose|i: int| 0 <= i < b.len() && lowest_address(b) == (#[trigger] b[i]).p_vaddr;
    let ha = choose|i: int| 0 <= i < a.len() && highest_end(a) == (#[trigger] a[i]).end();
    let hb = choose|i: int| 0 <= i < b.len() && highest_end(b) == (#[trigger] b[i]).end();
    assert(a.contains(a[la]) && a.contains(a[ha]));
    assert(b.contains(b[lb]) && b.contains(b[hb]));
    assert(b.contains(a[la]) && b.contains(a[ha]));
    assert(a.contains(b[lb]) && a.contains(b[hb]));
}

/// Computes the span to reserve for a non-empty set of segments.
pub fn get_initial_memory_map(segs: &Vec<ProgramHeader>) -> (plan: LoadPlan)
    requires
        segs@.len() > 0,
        ends_fit(segs@),
    ensures
        plan == plan_of(segs@),
        plan.base == lowest_address(segs@),
        plan.base + plan.span == highest_end(segs@),
        forall|i: int|
            0 <= i < segs@.len() ==> plan.base <= (#[trigger] segs@[i]).p_vaddr && segs@[i].end()
                <= plan.base + plan.span,
{
    let mut base: u64 = segs[0].p_vaddr;
    let mut end: u64 = segs[0].p_vaddr + segs[0].p_memsz;
    let mut i: usize = 1;
    assert(segs@.take(1).len() == 1 && segs@.take(1)[0] == segs@[0]);
    while i < segs.len()
        invariant
            1 <= i <= segs@.len(),
            ends_fit(segs@),
            base == lowest_address(segs@.take(i as int)),
            end == highest_end(segs@.take(i as int)),
        decreases segs@.len() - i,
    {
        let seg: ProgramHeader = segs[i];
        let seg_end: u64 = seg.p_vaddr + seg.p_memsz;
        proof {
            let next = segs@.take(i + 1);
            assert(next.drop_last() =~= segs@.take(i as int));
            assert(next.last() == segs@[i as int]);
        }
        if seg.p_vaddr < base {
            base = seg.p_vaddr;
        }
        if seg_end > end {
            end = seg_end;
        }
        i = i + 1;
    }
    proof {
        assert(segs@.take(i as int) =~= segs@);
        assert forall|k: int| 0 <= k < segs@.len() implies base <= (#[trigger] segs@[k]).p_vaddr
            && segs@[k].end() <= end by {
            lemma_plan_covers(segs@, k);
        }
        lemma_plan_covers(segs@, 0);
    }
    LoadPlan { base, span: end - base }
}

} // verus!
