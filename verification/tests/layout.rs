use elf_loader::image::{ProgramHeader, PF_R, PF_W, PF_X, PT_LOAD};
use elf_loader::layout::{get_initial_memory_map, LoadPlan};

fn load(vaddr: u64, filesz: u64, memsz: u64, flags: u32) -> ProgramHeader {
    ProgramHeader::new(PT_LOAD, flags, vaddr & 0xfff, vaddr, filesz, memsz, 0x1000)
}

#[test]
fn two_segment_plan() {
    let a = load(0x400000, 0x100, 0x100, PF_R | PF_X);
    let b = load(0x401000, 0x10, 0x20, PF_R | PF_W);
    let plan = get_initial_memory_map(&vec![a, b]);
    assert_eq!(plan, LoadPlan { base: 0x400000, span: 0x1020 });
}

#[test]
fn single_segment_plan() {
    let a = load(0x10000, 0x80, 0x200, PF_R);
    assert_eq!(get_initial_memory_map(&vec![a]), LoadPlan { base: 0x10000, span: 0x200 });
}

#[test]
fn plan_ignores_order() {
    let a = load(0x400000, 0x100, 0x100, PF_R | PF_X);
    let b = load(0x401000, 0x10, 0x20, PF_R | PF_W);
    let c = load(0x600000, 0x0, 0x3000, PF_R | PF_W);
    let expected = LoadPlan { base: 0x400000, span: 0x203000 };
    assert_eq!(get_initial_memory_map(&vec![a, b, c]), expected);
    assert_eq!(get_initial_memory_map(&vec![a, c, b]), expected);
    assert_eq!(get_initial_memory_map(&vec![b, a, c]), expected);
    assert_eq!(get_initial_memory_map(&vec![b, c, a]), expected);
    assert_eq!(get_initial_memory_map(&vec![c, a, b]), expected);
    assert_eq!(get_initial_memory_map(&vec![c, b, a]), expected);
}

#[test]
fn highest_end_need_not_be_highest_start() {
    let long = load(0x400000, 0x100, 0x5000, PF_R);
    let short = load(0x402000, 0x10, 0x10, PF_R);
    assert_eq!(get_initial_memory_map(&vec![long, short]), LoadPlan { base: 0x400000, span: 0x5000 });
    assert_eq!(get_initial_memory_map(&vec![short, long]), LoadPlan { base: 0x400000, span: 0x5000 });
}

#[test]
fn shared_lowest_address() {
    let a = load(0x400000, 0x10, 0x10, PF_R);
    let b = load(0x400000, 0x20, 0x40, PF_R);
    assert_eq!(get_initial_memory_map(&vec![a, b]), LoadPlan { base: 0x400000, span: 0x40 });
}

#[test]
fn plan_reaches_top_of_address_space() {
    let a = load(0xffff_ffff_ffff_f000, 0x0, 0xfff, PF_R);
    assert_eq!(get_initial_memory_map(&vec![a]), LoadPlan { base: 0xffff_ffff_ffff_f000, span: 0xfff });
}
