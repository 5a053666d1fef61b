//! How one loadable segment is placed in memory.
//!
//! A segment is mapped from the file in whole pages, so the request starts at
//! the page below its address and the file offset moves down with it. What
//! the segment occupies beyond its file-resident part must read as zero.

use vstd::prelude::*;
use crate::image::{ProgramHeader, PAGE_SIZE, PF_R, PF_W, PF_X};

verus! {

/// The access a mapping allows.
#[derive(Clone, Copy, Debug, PartialEq, Eq, Structural)]
pub struct Protection {
    pub read: bool,
    pub write: bool,
    pub execute: bool,
}

/// The fixed, file-backed mapping that loads one segment.
#[derive(Clone, Copy, Debug, PartialEq, Eq, Structural)]
pub struct SegmentMapping {
    /// Page-aligned address at which the mapping is placed.
    pub address: u64,
    /// Number of bytes mapped from the file.
    pub length: u64,
    /// Offset in the file of the first byte mapped.
    pub file_offset: u64,
    /// Access the segment asks for.
    pub protection: Protection,
    /// First address past the file-resident part of the segment.
    pub zero_start: u64,
    /// Number of bytes from `zero_start` on that lie in a file-backed page
    /// and have to be cleared by hand.
    pub zero_len: u64,
    /// First address past the segment; from `zero_start` to here it reads
    /// as zero.
    pub end: u64,
}

/// The access that a segment's flag bits ask for, each bit by itself.
pub open spec fn protection_of(flags: u32) -> Protection {
    Protection {
        read: flags & PF_R != 0,
        write: flags & PF_W != 0,
        execute: flags & PF_X != 0,
    }
}

/// Distance from `a` up to the next page boundary; zero on a boundary.
pub open spec fn to_page_end(a: int) -> int {
    if a % (PAGE_SIZE as int) == 0 {
        0
    } else {
        PAGE_SIZE - a % (PAGE_SIZE as int)
    }
}

/// The mapping that loads `ph`.
pub open spec fn mapping_of(ph: ProgramHeader) -> SegmentMapping {
    let delta = ph.p_vaddr % PAGE_SIZE;
    let tail = ph.p_memsz - ph.p_filesz;
    let gap = to_page_end(ph.p_vaddr + ph.p_filesz);
    SegmentMapping {
        address: (ph.p_vaddr - delta) as u64,
        length: (ph.p_filesz + delta) as u64,
        file_offset: (ph.p_offset - delta) as u64,
        protection: protection_of(ph.p_flags),
        zero_start: (ph.p_vaddr + ph.p_filesz) as u64,
        zero_len: (if tail < gap { tail } else { gap }) as u64,
        end: (ph.p_vaddr + ph.p_memsz) as u64,
    }
}

/// The byte that address `a` holds once `m` has been mapped from `file` over
/// an anonymous reservation and the `zero_len` bytes from `zero_start` have
/// been cleared. Whole pages are file-backed; a page read past the end of
/// the file, and everything outside the mapping, is zero.
pub open spec fn loaded_byte(file: Seq<u8>, m: SegmentMapping, a: int) -> u8 {
    let mapped_end = m.address + m.length + to_page_end(m.address + m.length);
    let at = m.file_offset + (a - m.address);
    if m.zero_start <= a < m.zero_start + m.zero_len {
        0
    } else if m.address <= a < mapped_end && 0 <= at < file.len() {
        file[at]
    } else {
        0
    }
}

/// Reads the permission set off the flag bits.
pub fn protection(flags: u32) -> (r: Protection)
    ensures
        r == protection_of(flags),
{
    Protection {
        read: flags & PF_R != 0,
        write: flags & PF_W != 0,
        execute: flags & PF_X != 0,
    }
}

/// The start of the page that holds `address`.
pub fn page_start(address: u64) -> (r: u64)
    ensures
        r == address - address % PAGE_SIZE,
        r % PAGE_SIZE == 0,
{
    let r: u64 = address & !0xfffu64;
    assert(address & !0xfffu64 == address - address % 4096u64) by (bit_vector);
    r
}

/// Computes the mapping that loads `ph`.
pub fn segment_mapping(ph: &ProgramHeader) -> (r: SegmentMapping)
    requires
        ph.well_formed(),
    ensures
        r == mapping_of(*ph),
        r.address % PAGE_SIZE == 0,
        r.file_offset % PAGE_SIZE == 0,
        r.address + r.length == ph.p_vaddr + ph.p_filesz,
        r.file_offset + r.length == ph.p_offset + ph.p_filesz,
{
    let aligned: u64 = page_start(ph.p_vaddr);
    let delta: u64 = ph.p_vaddr - aligned;
    let zero_start: u64 = ph.p_vaddr + ph.p_filesz;
    let tail: u64 = ph.p_memsz - ph.p_filesz;
    let rest: u64 = zero_start % PAGE_SIZE;
    let gap: u64 = if rest == 0 { 0 } else { PAGE_SIZE - rest };
    SegmentMapping {
        address: aligned,
        length: ph.p_filesz + delta,
        file_offset: ph.p_offset - delta,
        protection: protection(ph.p_flags),
        zero_start,
        zero_len: if tail < gap { tail } else { gap },
        end: ph.p_vaddr + ph.p_memsz,
    }
}

/// Whether every segment of `segs` is well formed.
pub open spec fn all_well_formed(segs: Seq<ProgramHeader>) -> bool {
    forall|i: int| 0 <= i < segs.len() ==> (#[trigger] segs[i]).well_formed()
}

/// Computes the mappings that load `segs`, one for each segment and in the
/// order of the segments.
pub fn load_segments(segs: &Vec<ProgramHeader>) -> (r: Vec<SegmentMapping>)
    requires
        all_well_formed(segs@),
    ensures
        r@.len() == segs@.len(),
        forall|i: int| 0 <= i < segs@.len() ==> r@[i] == mapping_of(#[trigger] segs@[i]),
{
    let mut out: Vec<SegmentMapping> = Vec::new();
    let mut i: usize = 0;
    while i < segs.len()
        invariant
            i <= segs@.len(),
            all_well_formed(segs@),
            out@.len() == i,
            forall|k: int| 0 <= k < i ==> out@[k] == mapping_of(#[trigger] segs@[k]),
        decreases segs@.len() - i,
    {
        out.push(segment_mapping(&segs[i]));
        i = i + 1;
    }
    out
}

/// Whether the mapping occupies any address at all.
pub open spec fn occupies(m: SegmentMapping) -> bool {
    m.address < m.end
}

/// The start of the last page that `m` touches, for an `m` that occupies
/// at least one address.
pub open spec fn last_page(m: SegmentMapping) -> int {
    (m.end - 1) - (m.end - 1) % (PAGE_SIZE as int)
}

/// Whether two mappings ask for the same page: both occupy something, and
/// neither starts past the last page of the other.
pub open spec fn conflict(a: SegmentMapping, b: SegmentMapping) -> bool {
    &&& occupies(a)
    &&& occupies(b)
    &&& a.address <= last_page(b)
    &&& b.address <= last_page(a)
}

/// Decides whether two mappings ask for the same page.
pub fn mappings_conflict(a: &SegmentMapping, b: &SegmentMapping) -> (r: bool)
    ensures
        r == conflict(*a, *b),
{
    if a.address < a.end && b.address < b.end {
        a.address <= page_start(b.end - 1) && b.address <= page_start(a.end - 1)
    } else {
        false
    }
}

/// A segment that may be read and executed, and not written, is mapped
/// without write access.
pub proof fn lemma_read_exec_not_writable(flags: u32)
    requires
        flags & PF_R != 0,
        flags & PF_X != 0,
        flags & PF_W == 0,
    ensures
        protection_of(flags) == (Protection { read: true, write: false, execute: true }),
{
}

/// The access of a mapping is read off the three flag bits and nothing
/// else: write access is granted exactly where the write bit is set.
pub proof fn lemma_write_needs_write_bit(ph: ProgramHeader)
    ensures
        mapping_of(ph).protection.write <==> ph.p_flags & PF_W != 0,
        mapping_of(ph).protection.read <==> ph.p_flags & PF_R != 0,
        mapping_of(ph).protection.execute <==> ph.p_flags & PF_X != 0,
{
}

/// What the segment's memory `[p_vaddr, p_vaddr + p_memsz)` must hold: the
/// file bytes `[p_offset, p_offset + p_filesz)` followed by zeros.
pub open spec fn contents_of(file: Seq<u8>, ph: ProgramHeader) -> Seq<u8> {
    Seq::new(
        ph.p_memsz as nat,
        |i: int| if i < ph.p_filesz { file[ph.p_offset + i] } else { 0u8 },
    )
}

/// Whether `file` holds the whole file-resident part of `ph`.
pub open spec fn file_covers(file: Seq<u8>, ph: ProgramHeader) -> bool {
    ph.p_offset + ph.p_filesz <= file.len()
}

/// Builds the memory image of one segment from the bytes of the file, or
/// `None` where the segment is ill-formed, reaches past the end of the file,
/// or is larger than a buffer can be.
pub fn segment_contents(file: &[u8], ph: &ProgramHeader) -> (r: Option<Vec<u8>>)
    ensures
        r is Some <==> ph.well_formed() && file_covers(file@, *ph) && ph.p_memsz <= usize::MAX,
        r matches Some(v) ==> v@ == contents_of(file@, *ph),
{
    if !ph.is_well_formed() || ph.p_memsz > usize::MAX as u64 {
        return None;
    }
    if ph.p_offset > file.len() as u64 || ph.p_filesz > file.len() as u64 - ph.p_offset {
        return None;
    }
    let start: usize = ph.p_offset as usize;
    let file_len: usize = ph.p_filesz as usize;
    let total: usize = ph.p_memsz as usize;
    let mut out: Vec<u8> = Vec::new();
    let mut i: usize = 0;
    while i < total
        invariant
            i <= total,
            file_len <= total,
            start + file_len <= file@.len(),
            file@.len() <= usize::MAX,
            start == ph.p_offset,
            file_len == ph.p_filesz,
            total == ph.p_memsz,
            out@.len() == i,
            forall|k: int| 0 <= k < i ==> out@[k] == contents_of(file@, *ph)[k],
        decreases total - i,
    {
        let b: u8 = if i < file_len { file[start + i] } else { 0 };
        out.push(b);
        i = i + 1;
    }
    assert(out@ =~= contents_of(file@, *ph));
    Some(out)
}

/// Loading reproduces the file: every address of the file-resident part of a
/// segment holds the byte of the file that the segment names for it. With
/// `p_filesz == p_memsz` that is the whole segment.
pub proof fn lemma_file_part_preserved(file: Seq<u8>, ph: ProgramHeader, i: int)
    requires
        ph.well_formed(),
        file_covers(file, ph),
        0 <= i < ph.p_filesz,
    ensures
        loaded_byte(file, mapping_of(ph), ph.p_vaddr + i) == file[ph.p_offset + i],
        loaded_byte(file, mapping_of(ph), ph.p_vaddr + i) == contents_of(file, ph)[i],
{
}

/// Zero fill: every address between the end of the file-resident part and
/// the end of the segment holds zero, whatever the file holds there.
pub proof fn lemma_tail_is_zero(file: Seq<u8>, ph: ProgramHeader, a: int)
    requires
        ph.well_formed(),
        ph.p_vaddr + ph.p_filesz <= a < ph.p_vaddr + ph.p_memsz,
    ensures
        loaded_byte(file, mapping_of(ph), a) == 0,
        contents_of(file, ph)[a - ph.p_vaddr] == 0,
{
}

} // verus!
