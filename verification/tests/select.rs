use elf_loader::error::{Feature, LoadError};
use elf_loader::image::{ProgramHeader, PF_R, PT_DYNAMIC, PT_LOAD};
use elf_loader::select::select_loadable;

fn seg(p_type: u32, vaddr: u64) -> ProgramHeader {
    ProgramHeader::new(p_type, PF_R, 0, vaddr, 0x10, 0x10, 0x1000)
}

#[test]
fn selection_keeps_table_order() {
    let table = vec![seg(6, 0), seg(PT_LOAD, 0x3000), seg(3, 0), seg(PT_LOAD, 0x1000), seg(PT_LOAD, 0x2000)];
    assert_eq!(
        select_loadable(&table),
        Ok(vec![seg(PT_LOAD, 0x3000), seg(PT_LOAD, 0x1000), seg(PT_LOAD, 0x2000)])
    );
}

#[test]
fn selection_stops_at_dynamic() {
    let table = vec![seg(PT_LOAD, 0x1000), seg(PT_DYNAMIC, 0x2000)];
    assert_eq!(select_loadable(&table), Err(LoadError::UnsupportedFeature(Feature::DynamicLinking)));
}

#[test]
fn selection_of_empty_table() {
    assert_eq!(select_loadable(&vec![]), Err(LoadError::NoLoadableSegments));
    assert_eq!(select_loadable(&vec![seg(4, 0), seg(0x6474e551, 0)]), Err(LoadError::NoLoadableSegments));
}
