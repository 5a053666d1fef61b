//! What the address space holds once every segment of a job is mapped.
//!
//! The reservation reads as zero. Each segment is then mapped over it, in
//! table order; a mapping replaces whatever lay on the pages it covers.

use vstd::prelude::*;
use crate::image::{ProgramHeader, PAGE_SIZE};
use crate::loader::{clash, placements_disjoint};
use crate::segment::{
    all_well_formed, conflict, contents_of, file_covers, lemma_file_part_preserved, lemma_tail_is_zero, loaded_byte,
    mapping_of, to_page_end, SegmentMapping,
};

verus! {

/// Whether address `a` lies on a page that `m` maps from the file.
pub open spec fn covers(m: SegmentMapping, a: int) -> bool {
    m.address <= a < m.address + m.length + to_page_end(m.address + m.length)
}

/// The byte at address `a` after the first `n` segments of `segs` have been
/// mapped from `file` over the reservation.
pub open spec fn memory_after(file: Seq<u8>, segs: Seq<ProgramHeader>, n: nat, a: int) -> u8
    decreases n,
{
    if n == 0 {
        0
    } else {
        let m = mapping_of(segs[n - 1]);
        if covers(m, a) {
            loaded_byte(file, m, a)
        } else {
            memory_after(file, segs, (n - 1) as nat, a)
        }
    }
}

/// A segment's mapping covers no address of another segment that is placed
/// on other pages.
proof fn lemma_covers_own_pages_only(p: ProgramHeader, q: ProgramHeader, a: int)
    requires
        p.well_formed(),
        q.well_formed(),
        !conflict(mapping_of(p), mapping_of(q)),
        p.p_vaddr <= a < p.p_vaddr + p.p_memsz,
    ensures
        !covers(mapping_of(q), a),
{
    let mp = mapping_of(p);
    let mq = mapping_of(q);
    let page = PAGE_SIZE as int;
    if covers(mq, a) {
        assert(mp.address % PAGE_SIZE == 0);
        assert(mq.address % PAGE_SIZE == 0);
        assert(mq.address + mq.length <= mq.end);
        assert(mq.address < mq.end);
        assert(mp.address <= a < mp.end);
        let last_p = (mp.end - 1) - (mp.end - 1) % page;
        let last_q = (mq.end - 1) - (mq.end - 1) % page;
        assert(last_p % page == 0);
        assert(last_q % page == 0);
        assert(a < last_q + page);
        if mp.address > last_q {
            assert(mp.address >= last_q + page);
        } else {
            assert(mq.address > last_p);
            assert(mq.address >= last_p + page);
        }
    }
}

/// Mapping further segments leaves the addresses of segment `i` as they
/// were.
proof fn lemma_later_segments_leave(
    file: Seq<u8>,
    segs: Seq<ProgramHeader>,
    i: int,
    n: nat,
    a: int,
)
    requires
        all_well_formed(segs),
        placements_disjoint(segs),
        0 <= i < n <= segs.len(),
        segs[i].p_vaddr <= a < segs[i].p_vaddr + segs[i].p_memsz,
    ensures
        memory_after(file, segs, n, a) == memory_after(file, segs, (i + 1) as nat, a),
    decreases n,
{
    if n > i + 1 {
        assert(!clash(segs, i, n - 1));
        lemma_covers_own_pages_only(segs[i], segs[n - 1], a);
        lemma_later_segments_leave(file, segs, i, (n - 1) as nat, a);
    }
}

/// Before segment `i` is mapped, its addresses still read as zero.
proof fn lemma_earlier_segments_leave(
    file: Seq<u8>,
    segs: Seq<ProgramHeader>,
    i: int,
    n: nat,
    a: int,
)
    requires
        all_well_formed(segs),
        placements_disjoint(segs),
        0 <= n <= i < segs.len(),
        segs[i].p_vaddr <= a < segs[i].p_vaddr + segs[i].p_memsz,
    ensures
        memory_after(file, segs, n, a) == 0,
    decreases n,
{
    if n > 0 {
        assert(!clash(segs, n - 1, i));
        lemma_covers_own_pages_only(segs[i], segs[n - 1], a);
        lemma_earlier_segments_leave(file, segs, i, (n - 1) as nat, a);
    }
}

/// The load is faithful: once all segments are mapped, every address of
/// every segment holds what the segment says it holds, the byte of the file
/// in the file-resident part and zero behind it.
pub proof fn lemma_load_is_faithful(file: Seq<u8>, segs: Seq<ProgramHeader>, i: int, k: int)
    requires
        all_well_formed(segs),
        placements_disjoint(segs),
        0 <= i < segs.len(),
        file_covers(file, segs[i]),
        0 <= k < segs[i].p_memsz,
    ensures
        memory_after(file, segs, segs.len(), segs[i].p_vaddr + k) == contents_of(file, segs[i])[k],
{
    let ph = segs[i];
    let a = ph.p_vaddr + k;
    lemma_later_segments_leave(file, segs, i, segs.len(), a);
    if covers(mapping_of(ph), a) {
        if k < ph.p_filesz {
            lemma_file_part_preserved(file, ph, k);
        } else {
            lemma_tail_is_zero(file, ph, a);
        }
    } else {
        lemma_earlier_segments_leave(file, segs, i, i as nat, a);
    }
}

} // verus!
