//! Reading the file header and the program-header table out of the bytes of
//! an image. The decoding itself is the `elf` crate's; what is accepted
//! afterwards is decided here.

use vstd::prelude::*;
use crate::error::LoadError;
use crate::image::{ElfHeader, ParsedImage, ProgramHeader};

verus! {

/// The `elf` crate's parse error, carried through unread.
#[verifier::external_type_specification]
#[verifier::external_body]
pub struct ExParseError(elf::ParseError);

/// What the `elf` crate reads out of `data` as a little-endian image: the
/// file header and the program headers in table order, or `None` where it
/// rejects the bytes.
pub uninterp spec fn elf_parse(data: Seq<u8>) -> Option<(ElfHeader, Seq<ProgramHeader>)>;

/// Whether the program-header table that `header` announces is the one that
/// was read, and lies within an image of `len` bytes. A table offset of zero
/// means that there is no table; a count of `0xffff` means that the count is
/// kept elsewhere, and nothing is said of it.
pub open spec fn table_within(header: ElfHeader, count: nat, len: nat) -> bool {
    &&& header.e_phoff == 0 ==> count == 0
    &&& header.e_phoff != 0 && header.e_phnum != 0xffff ==> {
        &&& count == header.e_phnum
        &&& header.e_phoff + header.e_phnum * header.e_phentsize <= len
    }
}

/// Calls `elf::ElfBytes::<LittleEndian>::minimal_parse` on `data` and copies
/// the header fields and the entries of `segments()` into the library's
/// records, one for one.
///
/// Unproved: that the outcome is a function of the bytes alone, named
/// `elf_parse`, and that an accepted image announces a program-header table
/// that lies within the bytes and has as many entries as were read.
#[verifier::external_body]
fn parse_with_elf(data: &[u8]) -> (r: Result<ParsedImage, elf::ParseError>)
    ensures
        match r {
            Ok(img) => elf_parse(data@) == Some((img.header, img.segments@)) && table_within(
                img.header,
                img.segments@.len(),
                data@.len(),
            ),
            Err(_) => elf_parse(data@) is None,
        },
{
    let file = elf::ElfBytes::<elf::endian::LittleEndian>::minimal_parse(data)?;
    let h = file.ehdr;
    let is_64bit = h.class == elf::file::Class::ELF64;
    let header =
        ElfHeader::new(is_64bit, h.e_type, h.e_machine, h.e_entry, h.e_phoff, h.e_phentsize, h.e_phnum);
    let segments = match file.segments() {
        Some(table) => table.iter().map(|p| {
            ProgramHeader::new(p.p_type, p.p_flags, p.p_offset, p.p_vaddr, p.p_filesz, p.p_memsz, p.p_align)
        }).collect(),
        None => Vec::new(),
    };
    Ok(ParsedImage { header, segments })
}

/// What the loader makes of a decoded image: only the 64-bit class is
/// supported, and every rejection is a malformed image.
pub open spec fn accepted(parsed: Option<(ElfHeader, Seq<ProgramHeader>)>) -> Result<
    (ElfHeader, Seq<ProgramHeader>),
    LoadError,
> {
    match parsed {
        Some(p) => if p.0.is_64bit {
            Ok(p)
        } else {
            Err(LoadError::MalformedImage)
        },
        None => Err(LoadError::MalformedImage),
    }
}

/// The decoded image as a pair of header and table, where there is one.
pub open spec fn decoded(r: Result<ParsedImage, elf::ParseError>) -> Option<
    (ElfHeader, Seq<ProgramHeader>),
> {
    match r {
        Ok(img) => Some((img.header, img.segments@)),
        Err(_) => None,
    }
}

/// Turns the decoder's outcome into the loader's: a decoding error and an
/// image of another class than 64-bit are both malformed; any other image
/// is handed on unchanged.
pub fn check_parsed(r: Result<ParsedImage, elf::ParseError>) -> (out: Result<
    ParsedImage,
    LoadError,
>)
    ensures
        match out {
            Ok(img) => accepted(decoded(r)) == Ok::<(ElfHeader, Seq<ProgramHeader>), LoadError>(
                (img.header, img.segments@),
            ),
            Err(e) => accepted(decoded(r)) == Err::<(ElfHeader, Seq<ProgramHeader>), LoadError>(e),
        },
{
    match r {
        Ok(img) => {
            if img.header.is_64bit {
                Ok(img)
            } else {
                Err(LoadError::MalformedImage)
            }
        },
        Err(_) => Err(LoadError::MalformedImage),
    }
}

/// Parses an image. Succeeds exactly on the bytes that decode as a
/// little-endian ELF image of the 64-bit class.
pub fn parse_image(data: &[u8]) -> (out: Result<ParsedImage, LoadError>)
    ensures
        match out {
            Ok(img) => accepted(elf_parse(data@)) == Ok::<
                (ElfHeader, Seq<ProgramHeader>),
                LoadError,
            >((img.header, img.segments@)) && table_within(
                img.header,
                img.segments@.len(),
                data@.len(),
            ),
            Err(e) => e == LoadError::MalformedImage && accepted(elf_parse(data@)) == Err::<
                (ElfHeader, Seq<ProgramHeader>),
                LoadError,
            >(e),
        },
{
    check_parsed(parse_with_elf(data))
}

} // verus!
