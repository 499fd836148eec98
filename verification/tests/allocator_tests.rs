use vect_boot::allocator::BootFrameAllocator;
use vect_boot::memory_map::{MemoryDescriptor, MemoryType};

fn desc(ty: MemoryType, phys_start: u64, page_count: u64) -> MemoryDescriptor {
    MemoryDescriptor { ty, phys_start, virt_start: 0, page_count, att: 0 }
}

fn sample_map() -> Vec<MemoryDescriptor> {
    vec![
        desc(MemoryType::Conventional, 0x1000, 2),
        desc(MemoryType::LoaderCode, 0x3000, 4),
        desc(MemoryType::Conventional, 0x10_0000, 3),
    ]
}

#[test]
fn frames_come_in_order_then_run_out() {
    let mut a = BootFrameAllocator::new(&sample_map());
    let got: Vec<Option<u64>> = (0..6).map(|_| a.allocate_frame()).collect();
    assert_eq!(
        got,
        vec![Some(0x1000), Some(0x2000), Some(0x10_0000), Some(0x10_1000), Some(0x10_2000), None]
    );
    assert_eq!(a.allocate_frame(), None);
}

#[test]
fn restricted_allocation_skips_regions_outside() {
    let mut a = BootFrameAllocator::new(&sample_map());
    a.restrict_range(0x8_0000, 0x20_0000);
    assert_eq!(a.allocate_frame(), Some(0x10_0000));
    assert_eq!(a.allocate_frame(), Some(0x10_1000));
    a.unrestrict();
    // The counter goes on over all regions.
    assert_eq!(a.allocate_frame(), Some(0x10_0000));
}

#[test]
fn region_touching_the_window_edges() {
    let mut a = BootFrameAllocator::new(&sample_map());
    // The first region ends exactly at 0x3000, so it is out of [0x3000, ..).
    a.restrict_range(0x3000, 0x10_0000);
    // The last region starts exactly at the upper bound and is out too.
    assert_eq!(a.allocate_frame(), None);
}

#[test]
fn allocated_frames_are_distinct() {
    let mut a = BootFrameAllocator::new(&sample_map());
    let mut seen = Vec::new();
    while let Some(f) = a.allocate_frame() {
        assert_eq!(f % 4096, 0);
        assert!(!seen.contains(&f));
        seen.push(f);
    }
    assert_eq!(seen.len(), 5);
}

#[test]
fn no_free_memory_no_frames() {
    let mut a = BootFrameAllocator::new(&[desc(MemoryType::LoaderData, 0x1000, 8)]);
    assert_eq!(a.allocate_frame(), None);
    let mut b = BootFrameAllocator::new(&[]);
    assert_eq!(b.allocate_frame(), None);
}

#[test]
fn unaligned_region_is_accepted_and_its_frame_shown() {
    // The constructor takes an unaligned free region; its first frame starts
    // where the region does.
    let a = BootFrameAllocator::new(&[desc(MemoryType::Conventional, 0x1800, 2)]);
    assert_eq!(a.next_frame_start(), Some(0x1800));
    let mut b = BootFrameAllocator::new(&[desc(MemoryType::Other(7), 0x4000, 1)]);
    assert_eq!(b.next_frame_start(), Some(0x4000));
    assert_eq!(b.allocate_frame(), Some(0x4000));
    assert_eq!(b.next_frame_start(), None);
}
