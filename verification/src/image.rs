//! The records of an ELF64 image that the loader reads.

use vstd::prelude::*;

verus! {

/// Object type of a position-dependent executable.
pub const ET_EXEC: u16 = 2;

/// Segment type of a loadable segment.
pub const PT_LOAD: u32 = 1;

/// Segment type of the dynamic-linking table.
pub const PT_DYNAMIC: u32 = 2;

/// Flag bit: the segment is executable.
pub const PF_X: u32 = 1;

/// Flag bit: the segment is writable.
pub const PF_W: u32 = 2;

/// Flag bit: the segment is readable.
pub const PF_R: u32 = 4;

/// Granularity of every mapping.
pub const PAGE_SIZE: u64 = 4096;

/// The fields of the file header that decide a load.
#[derive(Clone, Copy, Debug, PartialEq, Eq, Structural)]
pub struct ElfHeader {
    /// Whether the identification names the 64-bit class.
    pub is_64bit: bool,
    pub e_type: u16,
    pub e_machine: u16,
    pub e_entry: u64,
    pub e_phoff: u64,
    pub e_phentsize: u16,
    pub e_phnum: u16,
}

impl ElfHeader {
    pub fn new(
        is_64bit: bool,
        e_type: u16,
        e_machine: u16,
        e_entry: u64,
        e_phoff: u64,
        e_phentsize: u16,
        e_phnum: u16,
    ) -> (r: ElfHeader)
        ensures
            r == (ElfHeader { is_64bit, e_type, e_machine, e_entry, e_phoff, e_phentsize, e_phnum }),
    {
        ElfHeader { is_64bit, e_type, e_machine, e_entry, e_phoff, e_phentsize, e_phnum }
    }
}

/// One entry of the program-header table.
#[derive(Clone, Copy, Debug, PartialEq, Eq, Structural)]
pub struct ProgramHeader {
    pub p_type: u32,
    pub p_flags: u32,
    pub p_offset: u64,
    pub p_vaddr: u64,
    pub p_filesz: u64,
    pub p_memsz: u64,
    pub p_align: u64,
}

impl ProgramHeader {
    pub fn new(
        p_type: u32,
        p_flags: u32,
        p_offset: u64,
        p_vaddr: u64,
        p_filesz: u64,
        p_memsz: u64,
        p_align: u64,
    ) -> (r: ProgramHeader)
        ensures
            r == (ProgramHeader { p_type, p_flags, p_offset, p_vaddr, p_filesz, p_memsz, p_align }),
    {
        ProgramHeader { p_type, p_flags, p_offset, p_vaddr, p_filesz, p_memsz, p_align }
    }

    /// Whether the segment takes part in building the process.
    pub open spec fn is_load(self) -> bool {
        self.p_type == PT_LOAD
    }

    /// Whether the segment asks for dynamic linking.
    pub open spec fn is_dynamic(self) -> bool {
        self.p_type == PT_DYNAMIC
    }

    /// One past the last address the segment occupies in memory.
    pub open spec fn end(self) -> int {
        self.p_vaddr + self.p_memsz
    }

    /// What a segment must satisfy before it can be mapped: the file-resident
    /// part is a prefix of the memory image, the memory image ends within the
    /// address space, the alignment is a power of two, and address and file
    /// offset agree modulo the alignment and modulo the page size.
    pub open spec fn well_formed(self) -> bool {
        &&& self.p_filesz <= self.p_memsz
        &&& self.p_vaddr + self.p_memsz <= u64::MAX
        &&& self.p_align != 0
        &&& self.p_align & ((self.p_align - 1) as u64) == 0
        &&& self.p_vaddr % self.p_align == self.p_offset % self.p_align
        &&& self.p_vaddr % PAGE_SIZE == self.p_offset % PAGE_SIZE
    }

    /// Decides `well_formed`.
    pub fn is_well_formed(&self) -> (r: bool)
        ensures
            r == self.well_formed(),
    {
        self.p_filesz <= self.p_memsz
            && self.p_memsz <= u64::MAX - self.p_vaddr
            && self.p_align != 0
            && self.p_align & (self.p_align - 1) == 0
            && self.p_vaddr % self.p_align == self.p_offset % self.p_align
            && self.p_vaddr % PAGE_SIZE == self.p_offset % PAGE_SIZE
    }
}

/// A parsed image: the file header and the program headers in table order.
#[derive(Clone, Debug)]
pub struct ParsedImage {
    pub header: ElfHeader,
    pub segments: Vec<ProgramHeader>,
}

} // verus!
