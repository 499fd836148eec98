use vect_boot::memory_map::{
    build_memory_regions, clone_mem_map, flags_for, map_descriptor, map_memory_from_uefi,
    to_region_type, first_descriptor_containing, MemoryDescriptor, MemoryType, PageFlags,
    PHYS_MEM_OFFSET,
};
use vect_boot::vect_bootapi::{MemoryRegion, MemoryRegionType};

fn desc(ty: MemoryType, phys_start: u64, page_count: u64) -> MemoryDescriptor {
    MemoryDescriptor { ty, phys_start, virt_start: 0, page_count, att: 0 }
}

#[test]
fn memory_type_numbers_round_trip() {
    for v in 0u32..40 {
        assert_eq!(MemoryType::from_raw(v).raw(), v);
    }
    assert_eq!(MemoryType::from_raw(7), MemoryType::Conventional);
    assert_eq!(MemoryType::from_raw(15), MemoryType::Unaccepted);
    assert_eq!(MemoryType::from_raw(16), MemoryType::Other(16));
    assert_eq!(MemoryType::AcpiReclaim.raw(), 9);
}

#[test]
fn region_types_of_memory_types() {
    assert_eq!(to_region_type(MemoryType::Conventional), MemoryRegionType::Usable);
    assert_eq!(to_region_type(MemoryType::AcpiReclaim), MemoryRegionType::Bad);
    assert_eq!(to_region_type(MemoryType::AcpiNonVolatile), MemoryRegionType::Bad);
    assert_eq!(to_region_type(MemoryType::Unusable), MemoryRegionType::Bad);
    assert_eq!(to_region_type(MemoryType::Unaccepted), MemoryRegionType::Bad);
    assert_eq!(to_region_type(MemoryType::LoaderCode), MemoryRegionType::Reserved);
    assert_eq!(to_region_type(MemoryType::Mmio), MemoryRegionType::Reserved);
    assert_eq!(to_region_type(MemoryType::Other(0x8000_0000)), MemoryRegionType::Reserved);
}

#[test]
fn region_type_and_flag_bits() {
    assert_eq!(MemoryRegionType::Unknown.as_u32(), 0);
    assert_eq!(MemoryRegionType::Usable.as_u32(), 1);
    assert_eq!(MemoryRegionType::Bad.as_u32(), 4);
    assert_eq!(flags_for(MemoryType::Conventional), PageFlags { present: true, writable: true });
    assert_eq!(flags_for(MemoryType::RuntimeServicesData), PageFlags { present: true, writable: true });
    assert_eq!(flags_for(MemoryType::Mmio), PageFlags { present: true, writable: false });
    assert_eq!(flags_for(MemoryType::Reserved).bits(), 1);
    assert_eq!(flags_for(MemoryType::LoaderData).bits(), 3);
}

#[test]
fn build_memory_regions_keeps_order() {
    let map = vec![
        desc(MemoryType::Conventional, 0x1000, 2),
        desc(MemoryType::AcpiReclaim, 0x10_0000, 1),
        desc(MemoryType::Mmio, 0xFEE0_0000, 1),
    ];
    let regions = build_memory_regions(&map);
    assert_eq!(
        regions,
        vec![
            MemoryRegion { start: 0x1000, end: 0x3000, kind: MemoryRegionType::Usable },
            MemoryRegion { start: 0x10_0000, end: 0x10_1000, kind: MemoryRegionType::Bad },
            MemoryRegion { start: 0xFEE0_0000, end: 0xFEE0_1000, kind: MemoryRegionType::Reserved },
        ]
    );
    assert!(build_memory_regions(&[]).is_empty());
}

#[test]
fn clone_mem_map_copies() {
    let map = vec![desc(MemoryType::LoaderCode, 0x4000, 3), desc(MemoryType::Conventional, 0, 1)];
    assert_eq!(clone_mem_map(&map), map);
}

#[test]
fn map_descriptor_of_mapped_and_unmapped_types() {
    let d = desc(MemoryType::Conventional, 0x20_0000, 4);
    let range = map_descriptor(&d).unwrap();
    assert_eq!(range.phys_start, 0x20_0000);
    assert_eq!(range.virt_start, 0xFFFF_8000_0020_0000);
    assert_eq!(range.page_count, 4);
    assert_eq!(range.flags.bits(), 3);
    let page = range.page(3);
    assert_eq!(page.phys, 0x20_3000);
    assert_eq!(page.virt, PHYS_MEM_OFFSET + 0x20_3000);
    assert!(map_descriptor(&desc(MemoryType::Mmio, 0xFEE0_0000, 1)).is_none());
    assert!(map_descriptor(&desc(MemoryType::RuntimeServicesCode, 0x1000, 1)).is_none());
    assert!(map_descriptor(&desc(MemoryType::BootServicesData, 0x1000, 1)).is_some());
}

#[test]
fn critical_descriptors_are_mapped_first() {
    let map = vec![
        desc(MemoryType::Conventional, 0, 0x100),
        desc(MemoryType::LoaderCode, 0x7C0_0000, 0x100),
        desc(MemoryType::LoaderData, 0x62C_0000, 0x100),
        desc(MemoryType::Mmio, 0xFEE0_0000, 1),
    ];
    let order = map_memory_from_uefi(&map, &[0x7c01800, 0x62c8018]);
    assert_eq!(order, vec![1, 2, 0, 3]);
    assert_eq!(first_descriptor_containing(&map, 0x62c8018), Some(2));
    assert_eq!(first_descriptor_containing(&map, 0x1_0000_0000), None);
}

#[test]
fn uncovered_critical_address_adds_nothing() {
    let map = vec![desc(MemoryType::Conventional, 0x1000, 1), desc(MemoryType::LoaderData, 0x2000, 1)];
    assert_eq!(map_memory_from_uefi(&map, &[0x9000]), vec![0, 1]);
    assert_eq!(map_memory_from_uefi(&map, &[]), vec![0, 1]);
    assert_eq!(map_memory_from_uefi(&[], &[0x1000]), Vec::<usize>::new());
}

#[test]
fn overlapping_descriptors_map_only_the_first_for_a_critical_address() {
    // Both descriptors cover 0x1800; only the first is mapped for it, and the
    // second, covering a critical address, is skipped afterwards.
    let map = vec![desc(MemoryType::LoaderData, 0x1000, 2), desc(MemoryType::LoaderCode, 0x1000, 1)];
    assert_eq!(map_memory_from_uefi(&map, &[0x1800]), vec![0]);
    // Two critical addresses in one descriptor map it twice.
    assert_eq!(map_memory_from_uefi(&map[..1], &[0x1000, 0x2000]), vec![0, 0]);
}

#[test]
fn other_with_a_known_number_is_that_type() {
    assert_eq!(MemoryType::Other(7).normalize(), MemoryType::Conventional);
    assert_eq!(MemoryType::Other(99).normalize(), MemoryType::Other(99));
    assert_eq!(to_region_type(MemoryType::Other(7)), MemoryRegionType::Usable);
    assert_eq!(to_region_type(MemoryType::Other(9)), MemoryRegionType::Bad);
    assert_eq!(flags_for(MemoryType::Other(1)), PageFlags { present: true, writable: true });
    assert_eq!(flags_for(MemoryType::Other(11)), PageFlags { present: true, writable: false });
    assert!(vect_boot::memory_map::is_mapped_type(MemoryType::Other(2)));
    assert!(!vect_boot::memory_map::is_mapped_type(MemoryType::Other(5)));
    assert!(map_descriptor(&desc(MemoryType::Other(7), 0x1000, 1)).is_some());
}

#[test]
fn critical_addresses_change_only_the_order() {
    let map = vec![
        desc(MemoryType::Conventional, 0, 0x100),
        desc(MemoryType::LoaderCode, 0x7C0_0000, 0x100),
        desc(MemoryType::LoaderData, 0x62C_0000, 0x100),
        desc(MemoryType::Mmio, 0xFEE0_0000, 1),
    ];
    let mut a = map_memory_from_uefi(&map, &[0x7c01800, 0x62c8018]);
    let mut b = map_memory_from_uefi(&map, &[0x10, 0xFEE0_0010]);
    let mut c = map_memory_from_uefi(&map, &[]);
    assert_eq!(b, vec![0, 3, 1, 2]);
    a.sort();
    b.sort();
    c.sort();
    assert_eq!(a, vec![0, 1, 2, 3]);
    assert_eq!(b, a);
    assert_eq!(c, a);
}
