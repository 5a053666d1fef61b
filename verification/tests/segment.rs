use elf_loader::image::{ProgramHeader, PF_R, PF_W, PF_X, PT_LOAD};
use elf_loader::segment::{
    load_segments, mappings_conflict, page_start, protection, segment_contents, segment_mapping, Protection,
    SegmentMapping,
};
use elf_loader::stack::{stack_top, STACK_SIZE};

fn file_of(len: usize, fill: u8) -> Vec<u8> {
    let mut v = Vec::new();
    for i in 0..len {
        v.push(fill ^ (i as u8));
    }
    v
}

#[test]
fn page_start_rounds_down() {
    assert_eq!(page_start(0x401234), 0x401000);
    assert_eq!(page_start(0x401000), 0x401000);
    assert_eq!(page_start(0xfff), 0);
    assert_eq!(page_start(u64::MAX), 0xffff_ffff_ffff_f000);
}

#[test]
fn protection_bits_are_independent() {
    assert_eq!(protection(0), Protection { read: false, write: false, execute: false });
    assert_eq!(protection(PF_X), Protection { read: false, write: false, execute: true });
    assert_eq!(protection(PF_W), Protection { read: false, write: true, execute: false });
    assert_eq!(protection(PF_R), Protection { read: true, write: false, execute: false });
    assert_eq!(protection(7), Protection { read: true, write: true, execute: true });
    assert_eq!(protection(0xffff_fff8), Protection { read: false, write: false, execute: false });
}

#[test]
fn read_exec_segment_is_not_writable() {
    let ph = ProgramHeader::new(PT_LOAD, PF_R | PF_X, 0, 0x400000, 0x100, 0x100, 0x1000);
    let m = segment_mapping(&ph);
    assert!(m.protection.read);
    assert!(m.protection.execute);
    assert!(!m.protection.write);
}

#[test]
fn mapping_of_aligned_segment() {
    let ph = ProgramHeader::new(PT_LOAD, PF_R | PF_X, 0, 0x400000, 0x100, 0x100, 0x1000);
    assert_eq!(
        segment_mapping(&ph),
        SegmentMapping {
            address: 0x400000,
            length: 0x100,
            file_offset: 0,
            protection: Protection { read: true, write: false, execute: true },
            zero_start: 0x400100,
            zero_len: 0,
            end: 0x400100,
        }
    );
}

#[test]
fn mapping_shifts_both_ends_by_the_page_offset() {
    let ph = ProgramHeader::new(PT_LOAD, PF_R | PF_W, 0x2e10, 0x403e10, 0x200, 0x1000, 0x1000);
    assert_eq!(
        segment_mapping(&ph),
        SegmentMapping {
            address: 0x403000,
            length: 0x200 + 0xe10,
            file_offset: 0x2000,
            protection: Protection { read: true, write: true, execute: false },
            zero_start: 0x404010,
            zero_len: 0xe00,
            end: 0x404e10,
        }
    );
}

#[test]
fn zero_range_stops_at_page_end() {
    let ph = ProgramHeader::new(PT_LOAD, PF_R | PF_W, 0x1000, 0x401000, 0xff0, 0x3000, 0x1000);
    let m = segment_mapping(&ph);
    assert_eq!(m.zero_start, 0x401ff0);
    assert_eq!(m.zero_len, 0x10);
}

#[test]
fn zero_range_is_empty_on_a_page_boundary() {
    let ph = ProgramHeader::new(PT_LOAD, PF_R | PF_W, 0x1000, 0x401000, 0x1000, 0x3000, 0x1000);
    let m = segment_mapping(&ph);
    assert_eq!(m.zero_start, 0x402000);
    assert_eq!(m.zero_len, 0);
}

#[test]
fn two_segment_scenario_tail_is_zero() {
    let file = file_of(0x2000, 0xa5);
    let b = ProgramHeader::new(PT_LOAD, PF_R | PF_W, 0x1000, 0x401000, 0x10, 0x20, 0x1000);
    let m = segment_mapping(&b);
    assert_eq!(m.address, 0x401000);
    assert_eq!(m.length, 0x10);
    assert_eq!(m.zero_start, 0x401010);
    assert_eq!(m.zero_len, 0x10);
    let bytes = segment_contents(&file, &b).unwrap();
    assert_eq!(bytes.len(), 0x20);
    assert_eq!(&bytes[..0x10], &file[0x1000..0x1010]);
    assert!(file[0x1010..0x1020].iter().any(|x| *x != 0));
    assert!(bytes[0x10..0x20].iter().all(|x| *x == 0));
}

#[test]
fn contents_equal_file_region_when_sizes_agree() {
    let file = file_of(0x300, 0x3c);
    let ph = ProgramHeader::new(PT_LOAD, PF_R, 0x100, 0x400100, 0x180, 0x180, 0x1000);
    let bytes = segment_contents(&file, &ph).unwrap();
    assert_eq!(bytes, file[0x100..0x280].to_vec());
}

#[test]
fn contents_of_pure_zero_segment() {
    let ph = ProgramHeader::new(PT_LOAD, PF_R | PF_W, 0, 0x500000, 0, 0x40, 0x1000);
    assert_eq!(segment_contents(&[], &ph), Some(vec![0u8; 0x40]));
}

#[test]
fn contents_refused_past_end_of_file() {
    let file = file_of(0x100, 1);
    let ph = ProgramHeader::new(PT_LOAD, PF_R, 0x80, 0x400080, 0x81, 0x81, 0x1000);
    assert_eq!(segment_contents(&file, &ph), None);
    let fits = ProgramHeader::new(PT_LOAD, PF_R, 0x80, 0x400080, 0x80, 0x80, 0x1000);
    assert_eq!(segment_contents(&file, &fits), Some(file[0x80..].to_vec()));
}

#[test]
fn contents_refused_for_ill_formed_segment() {
    let file = file_of(0x100, 1);
    let ph = ProgramHeader::new(PT_LOAD, PF_R, 0, 0x400000, 0x20, 0x10, 0x1000);
    assert_eq!(segment_contents(&file, &ph), None);
}

#[test]
fn well_formedness_cases() {
    let ok = ProgramHeader::new(PT_LOAD, PF_R, 0x2e10, 0x403e10, 0x200, 0x1000, 0x1000);
    assert!(ok.is_well_formed());
    let file_larger = ProgramHeader::new(PT_LOAD, PF_R, 0, 0x400000, 0x101, 0x100, 0x1000);
    assert!(!file_larger.is_well_formed());
    let wraps = ProgramHeader::new(PT_LOAD, PF_R, 0, 0xffff_ffff_ffff_f000, 0, 0x1000, 0x1000);
    assert!(!wraps.is_well_formed());
    let no_align = ProgramHeader::new(PT_LOAD, PF_R, 0, 0x400000, 0x100, 0x100, 0);
    assert!(!no_align.is_well_formed());
    let odd_align = ProgramHeader::new(PT_LOAD, PF_R, 0, 0x3000, 0x100, 0x100, 0x3000);
    assert!(!odd_align.is_well_formed());
    let skewed = ProgramHeader::new(PT_LOAD, PF_R, 0x10, 0x400020, 0x100, 0x100, 0x1000);
    assert!(!skewed.is_well_formed());
    let skewed_in_page = ProgramHeader::new(PT_LOAD, PF_R, 0x10, 0x400020, 0x100, 0x100, 0x10);
    assert!(!skewed_in_page.is_well_formed());
    let large_align = ProgramHeader::new(PT_LOAD, PF_R, 0x10000, 0x410000, 0x100, 0x100, 0x10000);
    assert!(large_align.is_well_formed());
}

#[test]
fn stack_top_is_end_of_mapping() {
    assert_eq!(STACK_SIZE, 2 * 1024 * 1024);
    assert_eq!(stack_top(0x7000_0000), Some(0x7020_0000));
    assert_eq!(stack_top(u64::MAX - STACK_SIZE), Some(u64::MAX));
    assert_eq!(stack_top(u64::MAX - STACK_SIZE + 1), None);
}

#[test]
fn conflict_is_by_page() {
    let a = segment_mapping(&ProgramHeader::new(PT_LOAD, PF_R, 0, 0x400000, 0x10, 0x10, 0x1000));
    let b = segment_mapping(&ProgramHeader::new(PT_LOAD, PF_R, 0xff0, 0x400ff0, 0x10, 0x10, 0x1000));
    let c = segment_mapping(&ProgramHeader::new(PT_LOAD, PF_R, 0x1000, 0x401000, 0x10, 0x10, 0x1000));
    let d = segment_mapping(&ProgramHeader::new(PT_LOAD, PF_R, 0xff0, 0x400ff0, 0x10, 0x11, 0x1000));
    assert!(mappings_conflict(&a, &b));
    assert!(mappings_conflict(&b, &a));
    assert!(mappings_conflict(&a, &a));
    assert!(!mappings_conflict(&a, &c));
    assert!(!mappings_conflict(&b, &c));
    assert!(mappings_conflict(&d, &c));
    assert!(mappings_conflict(&c, &d));
}

#[test]
fn contents_of_segment_inside_a_page() {
    let mut file = vec![0xffu8; 0x3000];
    for i in 0..0x3000usize {
        file[i] = (i % 251) as u8 + 1;
    }
    let ph = ProgramHeader::new(PT_LOAD, PF_R | PF_W, 0x2e10, 0x403e10, 0x100, 0x400, 0x1000);
    let bytes = segment_contents(&file, &ph).unwrap();
    assert_eq!(bytes.len(), 0x400);
    assert_eq!(&bytes[..0x100], &file[0x2e10..0x2f10]);
    assert!(bytes[0x100..].iter().all(|x| *x == 0));
    assert!(file[0x2f10..0x3000].iter().all(|x| *x != 0));
}

#[test]
fn mappings_come_in_segment_order() {
    let a = ProgramHeader::new(PT_LOAD, PF_R | PF_X, 0, 0x400000, 0x100, 0x100, 0x1000);
    let b = ProgramHeader::new(PT_LOAD, PF_R | PF_W, 0x1000, 0x401000, 0x10, 0x20, 0x1000);
    assert_eq!(load_segments(&vec![b, a]), vec![segment_mapping(&b), segment_mapping(&a)]);
    assert_eq!(load_segments(&vec![]), vec![]);
}
