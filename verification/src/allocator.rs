//! The frame allocator that the loader uses while it builds the kernel's page
//! tables: it hands out the 4 KiB frames of the free memory, one after another.
use vstd::prelude::*;
use crate::addr::{PAGE_SIZE, valid_phys_addr, phys_addr_new, phys_frame_from_start_address};
use crate::memory_map::{MemoryDescriptor, MemoryType, MAX_MEMORY_REGIONS, descriptor_end, descriptor_in_phys_range, descriptor_region, lemma_region_type_by_number};
use crate::vect_bootapi::{MemoryRegion, MemoryRegionType};

verus! {

/// The number of whole frames in a region.
pub open spec fn frame_count(r: MemoryRegion) -> nat {
    ((r.end - r.start) / (PAGE_SIZE as int)) as nat
}

/// The start addresses of the whole frames of a region, in ascending order.
pub open spec fn region_frames(r: MemoryRegion) -> Seq<u64> {
    Seq::new(frame_count(r), |k: int| (r.start + k * PAGE_SIZE) as u64)
}

/// The region lies in the window `[min, max)` to which allocation is
/// restricted: it ends above `min` and starts below `max`.
pub open spec fn spec_in_range(r: MemoryRegion, min: Option<u64>, max: Option<u64>) -> bool {
    &&& (match min { Some(m) => r.end > m, None => true })
    &&& (match max { Some(m) => r.start < m, None => true })
}

/// The frames that the allocator can hand out: those of the regions in the
/// window, region after region.
pub open spec fn available_frames(rs: Seq<MemoryRegion>, min: Option<u64>, max: Option<u64>) -> Seq<u64>
    decreases rs.len(),
{
    if rs.len() == 0 {
        seq![]
    } else {
        let prev = available_frames(rs.drop_last(), min, max);
        if spec_in_range(rs.last(), min, max) {
            prev + region_frames(rs.last())
        } else {
            prev
        }
    }
}

/// The number of frames in all regions.
pub open spec fn total_frames(rs: Seq<MemoryRegion>) -> nat {
    available_frames(rs, None, None).len()
}

/// A region as the allocator records it: a valid physical range.
pub open spec fn region_well_formed(r: MemoryRegion) -> bool {
    &&& r.start <= r.end
    &&& valid_phys_addr(r.end as int)
}

pub open spec fn regions_well_formed(rs: Seq<MemoryRegion>) -> bool {
    forall|i: int| 0 <= i < rs.len() ==> #[trigger] region_well_formed(rs[i])
}

/// No two regions overlap.
pub open spec fn regions_disjoint(rs: Seq<MemoryRegion>) -> bool {
    forall|i: int, j: int|
        0 <= i < j < rs.len() ==> #[trigger] rs[i].end <= #[trigger] rs[j].start || rs[j].end <= rs[i].start
}

/// The free memory of the firmware's memory map, as usable regions, in order.
pub open spec fn conventional_regions(ds: Seq<MemoryDescriptor>) -> Seq<MemoryRegion>
    decreases ds.len(),
{
    if ds.len() == 0 {
        seq![]
    } else {
        let prev = conventional_regions(ds.drop_last());
        if ds.last().ty.normalized() == MemoryType::Conventional {
            prev.push(MemoryRegion {
                start: ds.last().phys_start,
                end: descriptor_end(ds.last()) as u64,
                kind: MemoryRegionType::Usable,
            })
        } else {
            prev
        }
    }
}

/// What the allocator holds: its regions, how many frames it has handed out,
/// and the window to which allocation is restricted.
pub ghost struct FrameAllocatorView {
    pub regions: Seq<MemoryRegion>,
    pub next: nat,
    pub min_address: Option<u64>,
    pub max_address: Option<u64>,
}

/// Hands out the free frames of the firmware's memory map, one after another.
pub struct BootFrameAllocator {
    memory_map: Vec<MemoryRegion>,
    next: u64,
    min_address: Option<u64>,
    max_address: Option<u64>,
}

impl View for BootFrameAllocator {
    type V = FrameAllocatorView;

    closed spec fn view(&self) -> FrameAllocatorView {
        FrameAllocatorView {
            regions: self.memory_map@,
            next: self.next as nat,
            min_address: self.min_address,
            max_address: self.max_address,
        }
    }
}

proof fn lemma_available_step(rs: Seq<MemoryRegion>, i: int, min: Option<u64>, max: Option<u64>)
    requires
        0 <= i < rs.len(),
    ensures
        available_frames(rs.take(i + 1), min, max) == (if spec_in_range(rs[i], min, max) {
            available_frames(rs.take(i), min, max) + region_frames(rs[i])
        } else {
            available_frames(rs.take(i), min, max)
        }),
{
    assert(rs.take(i + 1).drop_last() =~= rs.take(i));
    assert(rs.take(i + 1).last() == rs[i]);
}

proof fn lemma_available_prefix(rs: Seq<MemoryRegion>, n: int, min: Option<u64>, max: Option<u64>)
    requires
        0 <= n <= rs.len(),
    ensures
        available_frames(rs.take(n), min, max).len() <= available_frames(rs, min, max).len(),
        forall|k: int| 0 <= k < available_frames(rs.take(n), min, max).len() ==>
            #[trigger] available_frames(rs.take(n), min, max)[k] == available_frames(rs, min, max)[k],
    decreases rs.len(),
{
    if n == rs.len() {
        assert(rs.take(n) =~= rs);
    } else {
        assert(rs.drop_last().take(n) =~= rs.take(n));
        lemma_available_prefix(rs.drop_last(), n, min, max);
    }
}

proof fn lemma_available_le_total(rs: Seq<MemoryRegion>, min: Option<u64>, max: Option<u64>)
    ensures
        available_frames(rs, min, max).len() <= total_frames(rs),
    decreases rs.len(),
{
    if rs.len() > 0 {
        lemma_available_le_total(rs.drop_last(), min, max);
    }
}

proof fn lemma_frame_count_bound(r: MemoryRegion)
    requires
        region_well_formed(r),
    ensures
        frame_count(r) <= 0x100_0000_0000,
{
    let d = r.end - r.start;
    assert(d / 4096 <= 0x100_0000_0000) by (nonlinear_arith)
        requires 0 <= d < 0x10_0000_0000_0000;
}

proof fn lemma_total_bound(rs: Seq<MemoryRegion>)
    requires
        regions_well_formed(rs),
    ensures
        total_frames(rs) <= rs.len() * 0x100_0000_0000,
    decreases rs.len(),
{
    if rs.len() > 0 {
        assert(region_well_formed(rs[rs.len() - 1]));
        lemma_frame_count_bound(rs.last());
        assert(regions_well_formed(rs.drop_last())) by {
            assert forall|i: int| 0 <= i < rs.drop_last().len() implies #[trigger] region_well_formed(rs.drop_last()[i]) by {
                assert(region_well_formed(rs[i]));
            }
        }
        lemma_total_bound(rs.drop_last());
    }
}

impl BootFrameAllocator {
    #[verifier::type_invariant]
    spec fn inv(&self) -> bool {
        &&& self.memory_map@.len() <= MAX_MEMORY_REGIONS
        &&& regions_well_formed(self.memory_map@)
        &&& self.next <= total_frames(self.memory_map@)
    }

    /// An allocator over the free (conventional) memory of the firmware's memory
    /// map, with nothing handed out yet and no restriction. It records at most
    /// `MAX_MEMORY_REGIONS` regions; each free descriptor must cover valid
    /// physical addresses.
    pub fn new(memory_map: &[MemoryDescriptor]) -> (r: Self)
        requires
            conventional_regions(memory_map@).len() <= MAX_MEMORY_REGIONS,
            forall|i: int| 0 <= i < memory_map@.len() && (#[trigger] memory_map@[i]).ty.normalized() == MemoryType::Conventional
                ==> descriptor_in_phys_range(memory_map@[i]),
        ensures
            r@.regions == conventional_regions(memory_map@),
            regions_well_formed(r@.regions),
            forall|i: int| 0 <= i < r@.regions.len() ==> (#[trigger] r@.regions[i]).kind == MemoryRegionType::Usable,
            r@.next == 0,
            r@.min_address is None,
            r@.max_address is None,
    {
        let ghost ds = memory_map@;
        let mut regions: Vec<MemoryRegion> = Vec::new();
        let mut j: usize = 0;
        while j < memory_map.len()
            invariant
                j <= ds.len(),
                ds == memory_map@,
                forall|i: int| 0 <= i < ds.len() && (#[trigger] ds[i]).ty.normalized() == MemoryType::Conventional
                    ==> descriptor_in_phys_range(ds[i]),
                regions@ == conventional_regions(ds.take(j as int)),
                regions_well_formed(regions@),
                forall|i: int| 0 <= i < regions@.len() ==> (#[trigger] regions@[i]).kind == MemoryRegionType::Usable,
            decreases ds.len() - j,
        {
            let desc = memory_map[j];
            assert(ds.take(j as int + 1).drop_last() =~= ds.take(j as int));
            if desc.ty.normalize() == MemoryType::Conventional {
                assert(descriptor_in_phys_range(ds[j as int]));
                let start = phys_addr_new(desc.phys_start);
                let end = phys_addr_new(desc.phys_start + desc.page_count * PAGE_SIZE);
                let ghost old_regions = regions@;
                regions.push(MemoryRegion { start, end, kind: MemoryRegionType::Usable });
                assert forall|i: int| 0 <= i < regions@.len() implies #[trigger] region_well_formed(regions@[i]) by {
                    if i < old_regions.len() {
                        assert(region_well_formed(old_regions[i]));
                    }
                }
            }
            j = j + 1;
        }
        assert(ds.take(j as int) =~= ds);
        BootFrameAllocator { memory_map: regions, next: 0, min_address: None, max_address: None }
    }

    /// Restricts allocation to the regions that reach into `[start, end)`.
    pub fn restrict_range(&mut self, start: u64, end: u64)
        ensures
            final(self)@ == (FrameAllocatorView {
                min_address: Some(start),
                max_address: Some(end),
                ..old(self)@
            }),
    {
        proof {
            use_type_invariant(&*self);
        }
        self.min_address = Some(start);
        self.max_address = Some(end);
    }

    /// Lifts the restriction.
    pub fn unrestrict(&mut self)
        ensures
            final(self)@ == (FrameAllocatorView {
                min_address: None,
                max_address: None,
                ..old(self)@
            }),
    {
        proof {
            use_type_invariant(&*self);
        }
        self.min_address = None;
        self.max_address = None;
    }

    fn in_range(&self, region: &MemoryRegion) -> (r: bool)
        ensures
            r == spec_in_range(*region, self@.min_address, self@.max_address),
    {
        if let Some(min) = self.min_address {
            if region.end <= min {
                return false;
            }
        }
        if let Some(max) = self.max_address {
            if region.start >= max {
                return false;
            }
        }
        true
    }

    /// The start address of the frame that `allocate_frame` hands out next:
    /// the `next`-th of the frames of the regions in the window, if there is one.
    pub fn next_frame_start(&self) -> (r: Option<u64>)
        ensures
            ({
                let frames = available_frames(self@.regions, self@.min_address, self@.max_address);
                r == (if self@.next < frames.len() { Some(frames[self@.next as int]) } else { None::<u64> })
            }),
    {
        proof {
            use_type_invariant(self);
        }
        let ghost rs = self.memory_map@;
        let ghost min = self.min_address;
        let ghost max = self.max_address;
        let ghost next0 = self.next as nat;
        let mut remaining_frames: u64 = self.next;
        let mut i: usize = 0;
        while i < self.memory_map.len()
            invariant
                i <= rs.len(),
                rs == self.memory_map@,
                min == self.min_address,
                max == self.max_address,
                next0 == self.next,
                regions_well_formed(rs),
                remaining_frames + available_frames(rs.take(i as int), min, max).len() == next0,
            decreases rs.len() - i,
        {
            let region = self.memory_map[i];
            proof {
                lemma_available_step(rs, i as int, min, max);
            }
            if self.in_range(&region) {
                assert(region_well_formed(rs[i as int]));
                let frame_count = (region.end - region.start) / PAGE_SIZE;
                if frame_count > remaining_frames {
                    let s = region.start;
                    let e = region.end;
                    assert(remaining_frames * 4096 + 4096 <= e - s) by (nonlinear_arith)
                        requires
                            remaining_frames < (e - s) / 4096,
                            s <= e;
                    let addr = phys_addr_new(remaining_frames * PAGE_SIZE + region.start);
                    proof {
                        let frames = available_frames(rs, min, max);
                        lemma_available_prefix(rs, i as int + 1, min, max);
                        assert(available_frames(rs.take(i as int + 1), min, max)[next0 as int]
                            == region_frames(rs[i as int])[remaining_frames as int]);
                        assert(frames[next0 as int] == addr);
                    }
                    return Some(addr);
                } else {
                    remaining_frames = remaining_frames - frame_count;
                }
            }
            i = i + 1;
        }
        proof {
            assert(rs.take(i as int) =~= rs);
        }
        None
    }

    /// Hands out the next frame, by its start address: the `next`-th of the
    /// frames of the regions in the window. When the window holds no more than
    /// `next` frames, it hands out nothing and stays as it is. The frame must
    /// start on a 4 KiB boundary, that is, its region must (see
    /// `next_frame_start`); `x86_64` refuses any other frame.
    pub fn allocate_frame(&mut self) -> (frame: Option<u64>)
        requires
            ({
                let frames = available_frames(old(self)@.regions, old(self)@.min_address, old(self)@.max_address);
                old(self)@.next < frames.len() ==> frames[old(self)@.next as int] % PAGE_SIZE == 0
            }),
        ensures
            final(self)@.regions == old(self)@.regions,
            final(self)@.min_address == old(self)@.min_address,
            final(self)@.max_address == old(self)@.max_address,
            ({
                let frames = available_frames(old(self)@.regions, old(self)@.min_address, old(self)@.max_address);
                if old(self)@.next < frames.len() {
                    &&& frame == Some(frames[old(self)@.next as int])
                    &&& final(self)@.next == old(self)@.next + 1
                } else {
                    &&& frame is None
                    &&& final(self)@.next == old(self)@.next
                }
            }),
    {
        proof {
            use_type_invariant(&*self);
        }
        match self.next_frame_start() {
            Some(addr) => {
                proof {
                    let rs = self.memory_map@;
                    lemma_available_le_total(rs, self.min_address, self.max_address);
                    lemma_total_bound(rs);
                    lemma_available_frame_in_region(rs, self.min_address, self.max_address, self.next as int);
                    let i = choose|i: int| 0 <= i < rs.len() && spec_in_range(rs[i], self.min_address, self.max_address)
                        && frame_in_region(addr, #[trigger] rs[i]);
                    assert(region_well_formed(rs[i]));
                }
                let frame = phys_frame_from_start_address(addr);
                self.next = self.next + 1;
                frame
            },
            None => None,
        }
    }
}


/// The frame starting at `f` is one of the whole frames of the region.
pub open spec fn frame_in_region(f: u64, r: MemoryRegion) -> bool {
    &&& r.start <= f
    &&& f + PAGE_SIZE <= r.end
    &&& (f - r.start) % (PAGE_SIZE as int) == 0
}

proof fn lemma_drop_last_well_formed(rs: Seq<MemoryRegion>)
    requires
        regions_well_formed(rs),
        rs.len() > 0,
    ensures
        regions_well_formed(rs.drop_last()),
        region_well_formed(rs.last()),
{
    assert forall|i: int| 0 <= i < rs.drop_last().len() implies #[trigger] region_well_formed(rs.drop_last()[i]) by {
        assert(region_well_formed(rs[i]));
    }
    assert(region_well_formed(rs[rs.len() - 1]));
}

/// Every frame that the allocator can hand out is a whole frame of a region in
/// the window, a multiple of 4 KiB from the region's start.
pub proof fn lemma_available_frame_in_region(rs: Seq<MemoryRegion>, min: Option<u64>, max: Option<u64>, n: int)
    requires
        regions_well_formed(rs),
        0 <= n < available_frames(rs, min, max).len(),
    ensures
        exists|i: int| 0 <= i < rs.len() && spec_in_range(rs[i], min, max)
            && frame_in_region(available_frames(rs, min, max)[n], #[trigger] rs[i]),
        exists|i: int| 0 <= i < rs.len()
            && (min matches Some(m) ==> rs[i].end > m)
            && (max matches Some(m) ==> rs[i].start < m)
            && frame_in_region(available_frames(rs, min, max)[n], #[trigger] rs[i]),
    decreases rs.len(),
{
    let prev = available_frames(rs.drop_last(), min, max);
    let frames = available_frames(rs, min, max);
    lemma_drop_last_well_formed(rs);
    if n < prev.len() {
        assert(frames[n] == prev[n]);
        lemma_available_frame_in_region(rs.drop_last(), min, max, n);
        let i = choose|i: int| 0 <= i < rs.drop_last().len() && spec_in_range(rs.drop_last()[i], min, max)
            && frame_in_region(prev[n], #[trigger] rs.drop_last()[i]);
        assert(rs.drop_last()[i] == rs[i]);
    } else {
        let r = rs.last();
        let k = n - prev.len();
        let s = r.start;
        let e = r.end;
        assert(k * 4096 + 4096 <= e - s && (k * 4096) % 4096 == 0) by (nonlinear_arith)
            requires
                0 <= k < (e - s) / 4096,
                s <= e;
        assert(frames[n] == region_frames(r)[k]);
        assert(frame_in_region(frames[n], rs[rs.len() - 1]));
    }
}

/// With regions that do not overlap, the frames that the allocator can hand
/// out are pairwise different: under one window, no two allocations return the
/// same frame.
pub proof fn lemma_available_frames_distinct(
    rs: Seq<MemoryRegion>,
    min: Option<u64>,
    max: Option<u64>,
    n1: int,
    n2: int,
)
    requires
        regions_well_formed(rs),
        regions_disjoint(rs),
        0 <= n1 < n2 < available_frames(rs, min, max).len(),
    ensures
        available_frames(rs, min, max)[n1] != available_frames(rs, min, max)[n2],
    decreases rs.len(),
{
    let prev = available_frames(rs.drop_last(), min, max);
    let frames = available_frames(rs, min, max);
    lemma_drop_last_well_formed(rs);
    assert(regions_disjoint(rs.drop_last())) by {
        assert forall|i: int, j: int| 0 <= i < j < rs.drop_last().len() implies
            #[trigger] rs.drop_last()[i].end <= #[trigger] rs.drop_last()[j].start
                || rs.drop_last()[j].end <= rs.drop_last()[i].start by {
            assert(rs[i].end <= rs[j].start || rs[j].end <= rs[i].start);
        }
    }
    if n2 < prev.len() {
        assert(frames[n1] == prev[n1]);
        assert(frames[n2] == prev[n2]);
        lemma_available_frames_distinct(rs.drop_last(), min, max, n1, n2);
    } else {
        let l = rs.len() - 1;
        let r = rs[l];
        let s = r.start;
        let e = r.end;
        let k2 = n2 - prev.len();
        assert(k2 * 4096 + 4096 <= e - s) by (nonlinear_arith)
            requires
                0 <= k2 < (e - s) / 4096,
                s <= e;
        assert(frames[n2] == region_frames(r)[k2]);
        if n1 < prev.len() {
            assert(frames[n1] == prev[n1]);
            lemma_available_frame_in_region(rs.drop_last(), min, max, n1);
            let i = choose|i: int| 0 <= i < rs.drop_last().len() && spec_in_range(rs.drop_last()[i], min, max)
                && frame_in_region(prev[n1], #[trigger] rs.drop_last()[i]);
            assert(rs.drop_last()[i] == rs[i]);
            assert(rs[i].end <= rs[l].start || rs[l].end <= rs[i].start);
        } else {
            let k1 = n1 - prev.len();
            assert(k1 * 4096 < k2 * 4096) by (nonlinear_arith)
                requires 0 <= k1 < k2;
            assert(frames[n1] == region_frames(r)[k1]);
        }
    }
}


/// The address lies in the window `[min, max)` (a missing bound does not limit).
pub open spec fn in_window(a: int, min: Option<u64>, max: Option<u64>) -> bool {
    &&& (match min { Some(m) => m <= a, None => true })
    &&& (match max { Some(m) => a < m, None => true })
}

/// A region that shares an address with the window takes part in allocation:
/// all its frames can be handed out, so the window holds at least as many
/// frames as the region; while fewer than that many have been handed out,
/// `allocate_frame` returns a frame.
pub proof fn lemma_overlapping_region_frames_available(
    rs: Seq<MemoryRegion>,
    min: Option<u64>,
    max: Option<u64>,
    i: int,
    a: int,
)
    requires
        0 <= i < rs.len(),
        rs[i].start <= a < rs[i].end,
        in_window(a, min, max),
    ensures
        available_frames(rs, min, max).len() >= frame_count(rs[i]),
        forall|k: int| 0 <= k < frame_count(rs[i])
            ==> available_frames(rs, min, max).contains(#[trigger] region_frames(rs[i])[k]),
    decreases rs.len(),
{
    let prev = available_frames(rs.drop_last(), min, max);
    let frames = available_frames(rs, min, max);
    if i == rs.len() - 1 {
        assert(spec_in_range(rs.last(), min, max));
        assert(frames == prev + region_frames(rs.last()));
        assert forall|k: int| 0 <= k < frame_count(rs[i]) implies frames.contains(#[trigger] region_frames(rs[i])[k]) by {
            assert(frames[prev.len() + k] == region_frames(rs[i])[k]);
        }
    } else {
        assert(rs.drop_last()[i] == rs[i]);
        lemma_overlapping_region_frames_available(rs.drop_last(), min, max, i, a);
        assert forall|k: int| 0 <= k < frame_count(rs[i]) implies frames.contains(#[trigger] region_frames(rs[i])[k]) by {
            let f = region_frames(rs[i])[k];
            assert(prev.contains(region_frames(rs.drop_last()[i])[k]));
            let j = choose|j: int| 0 <= j < prev.len() && prev[j] == f;
            assert(frames[j] == f);
        }
    }
}

/// The regions that the kernel is told are usable are exactly the regions of
/// the frame allocator: the free (conventional) memory, in the same order.
pub proof fn lemma_usable_regions_are_allocator_regions(ds: Seq<MemoryDescriptor>)
    ensures
        ds.map_values(|d: MemoryDescriptor| descriptor_region(d)).filter(
            |r: MemoryRegion| r.kind == MemoryRegionType::Usable,
        ) == conventional_regions(ds),
    decreases ds.len(),
{
    reveal(Seq::filter);
    let f = |d: MemoryDescriptor| descriptor_region(d);
    let pred = |r: MemoryRegion| r.kind == MemoryRegionType::Usable;
    let m = ds.map_values(f);
    if ds.len() == 0 {
        assert(m =~= Seq::<MemoryRegion>::empty());
    } else {
        lemma_usable_regions_are_allocator_regions(ds.drop_last());
        assert(m.drop_last() =~= ds.drop_last().map_values(f));
        assert(m.last() == descriptor_region(ds.last()));
        lemma_region_type_by_number(ds.last().ty);
        MemoryType::lemma_normalized_raw(ds.last().ty);
    }
}

} // verus!
