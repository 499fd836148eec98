//! The firmware's memory map: its descriptors, what the kernel is told of
//! them, and which of them the loader maps into the kernel's address space.
use vstd::prelude::*;
use crate::addr::{PAGE_SIZE, valid_phys_addr, canonical_virt_addr, phys_addr_new, virt_addr_new};
use crate::vect_bootapi::{MemoryRegion, MemoryRegionType};

verus! {

/// The largest number of regions the loader records.
pub const MAX_MEMORY_REGIONS: usize = 256;

/// Where all of physical memory is mapped in the kernel's address space.
pub const PHYS_MEM_OFFSET: u64 = 0xFFFF_8000_0000_0000;

/// The memory types of the UEFI specification, by their numbers 0 to 15;
/// `Other` holds any larger number.
#[derive(Clone, Copy, Debug, PartialEq, Eq, Structural)]
pub enum MemoryType {
    Reserved,
    LoaderCode,
    LoaderData,
    BootServicesCode,
    BootServicesData,
    RuntimeServicesCode,
    RuntimeServicesData,
    Conventional,
    Unusable,
    AcpiReclaim,
    AcpiNonVolatile,
    Mmio,
    MmioPortSpace,
    PalCode,
    PersistentMemory,
    Unaccepted,
    Other(u32),
}

impl MemoryType {
    /// The number that stands for the type in the UEFI memory map.
    pub open spec fn spec_raw(self) -> u32 {
        match self {
            MemoryType::Reserved => 0,
            MemoryType::LoaderCode => 1,
            MemoryType::LoaderData => 2,
            MemoryType::BootServicesCode => 3,
            MemoryType::BootServicesData => 4,
            MemoryType::RuntimeServicesCode => 5,
            MemoryType::RuntimeServicesData => 6,
            MemoryType::Conventional => 7,
            MemoryType::Unusable => 8,
            MemoryType::AcpiReclaim => 9,
            MemoryType::AcpiNonVolatile => 10,
            MemoryType::Mmio => 11,
            MemoryType::MmioPortSpace => 12,
            MemoryType::PalCode => 13,
            MemoryType::PersistentMemory => 14,
            MemoryType::Unaccepted => 15,
            MemoryType::Other(v) => v,
        }
    }

    /// A type as `from_raw` builds it: `Other` only for numbers above 15.
    pub open spec fn is_canonical(self) -> bool {
        self matches MemoryType::Other(v) ==> v > 15
    }

    pub open spec fn spec_from_raw(v: u32) -> MemoryType {
        if v == 0 { MemoryType::Reserved }
        else if v == 1 { MemoryType::LoaderCode }
        else if v == 2 { MemoryType::LoaderData }
        else if v == 3 { MemoryType::BootServicesCode }
        else if v == 4 { MemoryType::BootServicesData }
        else if v == 5 { MemoryType::RuntimeServicesCode }
        else if v == 6 { MemoryType::RuntimeServicesData }
        else if v == 7 { MemoryType::Conventional }
        else if v == 8 { MemoryType::Unusable }
        else if v == 9 { MemoryType::AcpiReclaim }
        else if v == 10 { MemoryType::AcpiNonVolatile }
        else if v == 11 { MemoryType::Mmio }
        else if v == 12 { MemoryType::MmioPortSpace }
        else if v == 13 { MemoryType::PalCode }
        else if v == 14 { MemoryType::PersistentMemory }
        else if v == 15 { MemoryType::Unaccepted }
        else { MemoryType::Other(v) }
    }

    /// The type that this value stands for: `Other(v)` with `v` at most 15 is
    /// the named type of number `v`, as the firmware's numbers are what count.
    pub open spec fn normalized(self) -> MemoryType {
        Self::spec_from_raw(self.spec_raw())
    }

    /// A type is conventional memory exactly when its number is 7.
    pub proof fn lemma_normalized_raw(self)
        ensures
            self.normalized() == MemoryType::Conventional <==> self.spec_raw() == 7,
    {
    }

    /// The type that this value stands for.
    pub fn normalize(self) -> (r: MemoryType)
        ensures
            r == self.normalized(),
    {
        Self::from_raw(self.raw())
    }

    /// The type that the UEFI memory map denotes by `v`.
    pub fn from_raw(v: u32) -> (r: MemoryType)
        ensures
            r == Self::spec_from_raw(v),
    {
        match v {
            0 => MemoryType::Reserved,
            1 => MemoryType::LoaderCode,
            2 => MemoryType::LoaderData,
            3 => MemoryType::BootServicesCode,
            4 => MemoryType::BootServicesData,
            5 => MemoryType::RuntimeServicesCode,
            6 => MemoryType::RuntimeServicesData,
            7 => MemoryType::Conventional,
            8 => MemoryType::Unusable,
            9 => MemoryType::AcpiReclaim,
            10 => MemoryType::AcpiNonVolatile,
            11 => MemoryType::Mmio,
            12 => MemoryType::MmioPortSpace,
            13 => MemoryType::PalCode,
            14 => MemoryType::PersistentMemory,
            15 => MemoryType::Unaccepted,
            _ => MemoryType::Other(v),
        }
    }

    /// The number that the UEFI memory map uses for this type.
    pub fn raw(self) -> (r: u32)
        ensures
            r == self.spec_raw(),
    {
        match self {
            MemoryType::Reserved => 0,
            MemoryType::LoaderCode => 1,
            MemoryType::LoaderData => 2,
            MemoryType::BootServicesCode => 3,
            MemoryType::BootServicesData => 4,
            MemoryType::RuntimeServicesCode => 5,
            MemoryType::RuntimeServicesData => 6,
            MemoryType::Conventional => 7,
            MemoryType::Unusable => 8,
            MemoryType::AcpiReclaim => 9,
            MemoryType::AcpiNonVolatile => 10,
            MemoryType::Mmio => 11,
            MemoryType::MmioPortSpace => 12,
            MemoryType::PalCode => 13,
            MemoryType::PersistentMemory => 14,
            MemoryType::Unaccepted => 15,
            MemoryType::Other(v) => v,
        }
    }
}

/// Reading a type from its number and writing it back gives the number.
pub proof fn lemma_memory_type_raw_round_trip(v: u32)
    ensures
        MemoryType::spec_from_raw(v).spec_raw() == v,
        MemoryType::spec_from_raw(v).is_canonical(),
{
}

/// Writing a canonical type as its number and reading it back gives the type.
pub proof fn lemma_memory_type_from_raw_round_trip(t: MemoryType)
    requires
        t.is_canonical(),
    ensures
        MemoryType::spec_from_raw(t.spec_raw()) == t,
{
}

/// One entry of the UEFI memory map: `page_count` pages of 4 KiB from `phys_start`.
#[derive(Clone, Copy, Debug, PartialEq, Eq, Structural)]
pub struct MemoryDescriptor {
    pub ty: MemoryType,
    pub phys_start: u64,
    pub virt_start: u64,
    pub page_count: u64,
    pub att: u64,
}

/// One past the last byte that the descriptor covers.
pub open spec fn descriptor_end(d: MemoryDescriptor) -> int {
    d.phys_start + d.page_count * PAGE_SIZE
}

/// The descriptor covers `addr`.
pub open spec fn descriptor_contains(d: MemoryDescriptor, addr: int) -> bool {
    d.phys_start <= addr < descriptor_end(d)
}

/// The range that a descriptor covers is a valid range of physical addresses.
pub open spec fn descriptor_in_phys_range(d: MemoryDescriptor) -> bool {
    valid_phys_addr(d.phys_start as int) && valid_phys_addr(descriptor_end(d))
}

/// The region type that the kernel is told for a memory type.
pub open spec fn spec_to_region_type(ty: MemoryType) -> MemoryRegionType {
    match ty.normalized() {
        MemoryType::Conventional => MemoryRegionType::Usable,
        MemoryType::AcpiReclaim | MemoryType::AcpiNonVolatile | MemoryType::Unusable
        | MemoryType::Unaccepted => MemoryRegionType::Bad,
        _ => MemoryRegionType::Reserved,
    }
}

pub fn to_region_type(memory_type: MemoryType) -> (r: MemoryRegionType)
    ensures
        r == spec_to_region_type(memory_type),
{
    match memory_type.normalize() {
        MemoryType::Conventional => MemoryRegionType::Usable,
        MemoryType::AcpiReclaim | MemoryType::AcpiNonVolatile | MemoryType::Unusable
        | MemoryType::Unaccepted => MemoryRegionType::Bad,
        _ => MemoryRegionType::Reserved,
    }
}

/// The region that the kernel is told for a descriptor.
pub open spec fn descriptor_region(d: MemoryDescriptor) -> MemoryRegion {
    MemoryRegion {
        start: d.phys_start,
        end: descriptor_end(d) as u64,
        kind: spec_to_region_type(d.ty),
    }
}

/// The kernel's memory map: one region for each descriptor, in the same order.
/// At most `MAX_MEMORY_REGIONS` descriptors are taken; the addresses must be valid
/// physical addresses.
pub fn build_memory_regions(memory_map: &[MemoryDescriptor]) -> (r: Vec<MemoryRegion>)
    requires
        memory_map@.len() <= MAX_MEMORY_REGIONS,
        forall|i: int| 0 <= i < memory_map@.len() ==> #[trigger] descriptor_in_phys_range(memory_map@[i]),
    ensures
        r@ == memory_map@.map_values(|d: MemoryDescriptor| descriptor_region(d)),
{
    let mut regions: Vec<MemoryRegion> = Vec::new();
    let mut count: usize = 0;
    while count < memory_map.len()
        invariant
            count <= memory_map@.len(),
            forall|i: int| 0 <= i < memory_map@.len() ==> #[trigger] descriptor_in_phys_range(memory_map@[i]),
            regions@ == memory_map@.take(count as int).map_values(|d: MemoryDescriptor| descriptor_region(d)),
        decreases memory_map@.len() - count,
    {
        let desc = memory_map[count];
        assert(descriptor_in_phys_range(memory_map@[count as int]));
        let kind = to_region_type(desc.ty);
        let start = phys_addr_new(desc.phys_start);
        let end = phys_addr_new(desc.phys_start + desc.page_count * PAGE_SIZE);
        regions.push(MemoryRegion { start, end, kind });
        assert(memory_map@.take(count as int + 1) =~= memory_map@.take(count as int).push(desc));
        count = count + 1;
    }
    assert(memory_map@.take(count as int) =~= memory_map@);
    regions
}

/// A copy of the memory map, which stays valid after the firmware's own map is
/// released. The copy has room for `MAX_MEMORY_REGIONS` descriptors.
pub fn clone_mem_map(mem_map: &[MemoryDescriptor]) -> (r: Vec<MemoryDescriptor>)
    requires
        mem_map@.len() <= MAX_MEMORY_REGIONS,
    ensures
        r@ == mem_map@,
{
    let mut copy: Vec<MemoryDescriptor> = Vec::with_capacity(MAX_MEMORY_REGIONS);
    let mut local_count: usize = 0;
    while local_count < mem_map.len()
        invariant
            local_count <= mem_map@.len(),
            copy@ == mem_map@.take(local_count as int),
        decreases mem_map@.len() - local_count,
    {
        copy.push(mem_map[local_count]);
        assert(mem_map@.take(local_count as int + 1) =~= mem_map@.take(local_count as int).push(mem_map@[local_count as int]));
        local_count = local_count + 1;
    }
    assert(mem_map@.take(local_count as int) =~= mem_map@);
    copy
}

/// The page-table flags of a mapping: present, and perhaps writable.
#[derive(Clone, Copy, Debug, PartialEq, Eq, Structural)]
pub struct PageFlags {
    pub present: bool,
    pub writable: bool,
}

impl PageFlags {
    /// The flags as the bits of an x86_64 page-table entry.
    pub open spec fn spec_bits(self) -> int {
        (if self.present { 1int } else { 0int }) + (if self.writable { 2int } else { 0int })
    }

    pub fn bits(self) -> (r: u64)
        ensures
            r == self.spec_bits(),
    {
        page_table_flag_bits(self.present, self.writable)
    }
}

/// `x86_64::structures::paging::PageTableFlags`: the bits of an entry with
/// `PRESENT` set as `present` says and `WRITABLE` set as `writable` says; the
/// crate defines `PRESENT` as bit 0 and `WRITABLE` as bit 1.
#[verifier::external_body]
fn page_table_flag_bits(present: bool, writable: bool) -> (r: u64)
    ensures
        r == (if present { 1int } else { 0int }) + (if writable { 2int } else { 0int }),
{
    let mut flags = x86_64::structures::paging::PageTableFlags::empty();
    flags.set(x86_64::structures::paging::PageTableFlags::PRESENT, present);
    flags.set(x86_64::structures::paging::PageTableFlags::WRITABLE, writable);
    flags.bits()
}

/// The flags with which memory of a type is mapped: code and data of the
/// loader, of boot and of runtime services and free memory are writable;
/// everything else is present only.
pub open spec fn spec_flags_for(mem_type: MemoryType) -> PageFlags {
    match mem_type.normalized() {
        MemoryType::Conventional | MemoryType::LoaderCode | MemoryType::LoaderData
        | MemoryType::BootServicesCode | MemoryType::BootServicesData
        | MemoryType::RuntimeServicesCode | MemoryType::RuntimeServicesData
            => PageFlags { present: true, writable: true },
        _ => PageFlags { present: true, writable: false },
    }
}

pub fn flags_for(mem_type: MemoryType) -> (r: PageFlags)
    ensures
        r == spec_flags_for(mem_type),
{
    match mem_type.normalize() {
        MemoryType::Conventional | MemoryType::LoaderCode | MemoryType::LoaderData
        | MemoryType::BootServicesCode | MemoryType::BootServicesData
        | MemoryType::RuntimeServicesCode | MemoryType::RuntimeServicesData
            => PageFlags { present: true, writable: true },
        _ => PageFlags { present: true, writable: false },
    }
}


/// Memory of these types is mapped into the kernel's address space.
pub open spec fn spec_is_mapped_type(ty: MemoryType) -> bool {
    match ty.normalized() {
        MemoryType::Conventional | MemoryType::BootServicesCode | MemoryType::BootServicesData
        | MemoryType::LoaderCode | MemoryType::LoaderData => true,
        _ => false,
    }
}

pub fn is_mapped_type(ty: MemoryType) -> (r: bool)
    ensures
        r == spec_is_mapped_type(ty),
{
    match ty.normalize() {
        MemoryType::Conventional | MemoryType::BootServicesCode | MemoryType::BootServicesData
        | MemoryType::LoaderCode | MemoryType::LoaderData => true,
        _ => false,
    }
}

/// One past the largest physical address that the kernel's view of physical
/// memory at `PHYS_MEM_OFFSET` can hold.
pub const DIRECT_MAP_LIMIT: u64 = 0x8000_0000_0000;

/// Every page of the descriptor can be mapped at `PHYS_MEM_OFFSET` plus its
/// physical address without leaving the address space.
pub open spec fn mapping_fits(d: MemoryDescriptor) -> bool {
    &&& descriptor_end(d) <= u64::MAX
    &&& d.phys_start < DIRECT_MAP_LIMIT
    &&& d.page_count > 0 ==> d.phys_start + (d.page_count - 1) * PAGE_SIZE < DIRECT_MAP_LIMIT
}

/// `page_count` pages of physical memory from `phys_start`, mapped from
/// `virt_start` on with `flags`.
#[derive(Clone, Copy, Debug, PartialEq, Eq, Structural)]
pub struct MappingRange {
    pub phys_start: u64,
    pub virt_start: u64,
    pub page_count: u64,
    pub flags: PageFlags,
}

/// One 4 KiB page and the frame it is mapped to.
#[derive(Clone, Copy, Debug, PartialEq, Eq, Structural)]
pub struct PageMapping {
    pub virt: u64,
    pub phys: u64,
}

impl MappingRange {
    /// The range maps physical memory at `PHYS_MEM_OFFSET` and stays in the
    /// address space.
    pub open spec fn wf(self) -> bool {
        &&& self.phys_start < DIRECT_MAP_LIMIT
        &&& self.virt_start == PHYS_MEM_OFFSET + self.phys_start
        &&& self.page_count > 0 ==> self.phys_start + (self.page_count - 1) * PAGE_SIZE < DIRECT_MAP_LIMIT
    }

    /// The `i`-th page of the range.
    pub fn page(&self, i: u64) -> (r: PageMapping)
        requires
            self.wf(),
            i < self.page_count,
        ensures
            r.phys == self.phys_start + i * PAGE_SIZE,
            r.virt == self.virt_start + i * PAGE_SIZE,
    {
        proof {
            assert(i * PAGE_SIZE <= (self.page_count - 1) * PAGE_SIZE) by (nonlinear_arith)
                requires i < self.page_count;
        }
        let phys = phys_addr_new(self.phys_start + i * PAGE_SIZE);
        let virt = virt_addr_new(self.virt_start + i * PAGE_SIZE);
        PageMapping { virt, phys }
    }
}

/// What the loader maps for a descriptor: nothing for memory that the kernel
/// does not need, else all its pages at `PHYS_MEM_OFFSET` plus their physical
/// address, with the flags of its type.
pub open spec fn spec_map_descriptor(d: MemoryDescriptor) -> Option<MappingRange> {
    if spec_is_mapped_type(d.ty) {
        Some(MappingRange {
            phys_start: d.phys_start,
            virt_start: (PHYS_MEM_OFFSET + d.phys_start) as u64,
            page_count: d.page_count,
            flags: spec_flags_for(d.ty),
        })
    } else {
        None
    }
}

pub fn map_descriptor(descriptor: &MemoryDescriptor) -> (r: Option<MappingRange>)
    requires
        spec_is_mapped_type(descriptor.ty) ==> mapping_fits(*descriptor),
    ensures
        r == spec_map_descriptor(*descriptor),
        r matches Some(range) ==> range.wf(),
{
    let mem_type = descriptor.ty;
    if is_mapped_type(mem_type) {
        let phys_start = descriptor.phys_start;
        let page_count = descriptor.page_count;
        let virt_start = virt_addr_new(PHYS_MEM_OFFSET + phys_start);
        let flags = flags_for(mem_type);
        Some(MappingRange { phys_start, virt_start, page_count, flags })
    } else {
        None
    }
}

/// The descriptor at `i` is the first one that covers `addr`.
pub open spec fn is_first_containing(ds: Seq<MemoryDescriptor>, addr: u64, i: int) -> bool {
    &&& 0 <= i < ds.len()
    &&& descriptor_contains(ds[i], addr as int)
    &&& forall|k: int| 0 <= k < i ==> !descriptor_contains(#[trigger] ds[k], addr as int)
}

/// The index of the first descriptor that covers `addr`, if one does.
pub open spec fn first_containing(ds: Seq<MemoryDescriptor>, addr: u64) -> Option<int> {
    if exists|i: int| is_first_containing(ds, addr, i) {
        Some(choose|i: int| is_first_containing(ds, addr, i))
    } else {
        None
    }
}

/// For each critical address in turn, the first descriptor that covers it.
pub open spec fn critical_indices(ds: Seq<MemoryDescriptor>, addrs: Seq<u64>) -> Seq<usize>
    decreases addrs.len(),
{
    if addrs.len() == 0 {
        seq![]
    } else {
        let prev = critical_indices(ds, addrs.drop_last());
        match first_containing(ds, addrs.last()) {
            Some(i) => prev.push(i as usize),
            None => prev,
        }
    }
}

/// The descriptor covers one of the critical addresses.
pub open spec fn covers_critical(d: MemoryDescriptor, addrs: Seq<u64>) -> bool {
    exists|j: int| 0 <= j < addrs.len() && descriptor_contains(d, #[trigger] addrs[j] as int)
}

/// The indices below `n` of the descriptors that cover no critical address, in order.
pub open spec fn remaining_indices(ds: Seq<MemoryDescriptor>, addrs: Seq<u64>, n: int) -> Seq<usize>
    decreases n,
{
    if n <= 0 {
        seq![]
    } else {
        let prev = remaining_indices(ds, addrs, n - 1);
        if covers_critical(ds[n - 1], addrs) {
            prev
        } else {
            prev.push((n - 1) as usize)
        }
    }
}

/// The order in which the loader maps the descriptors: first, for each critical
/// address, the first descriptor that covers it; then every descriptor that
/// covers no critical address.
pub open spec fn spec_mapping_order(ds: Seq<MemoryDescriptor>, addrs: Seq<u64>) -> Seq<usize> {
    critical_indices(ds, addrs) + remaining_indices(ds, addrs, ds.len() as int)
}

/// The descriptors' ranges can be computed without overflow.
pub open spec fn descriptors_end_fit(ds: Seq<MemoryDescriptor>) -> bool {
    forall|i: int| 0 <= i < ds.len() ==> descriptor_end(#[trigger] ds[i]) <= u64::MAX
}

fn contains_exec(d: &MemoryDescriptor, addr: u64) -> (r: bool)
    requires
        descriptor_end(*d) <= u64::MAX,
    ensures
        r == descriptor_contains(*d, addr as int),
{
    addr >= d.phys_start && addr < d.phys_start + d.page_count * PAGE_SIZE
}

/// The index of the first descriptor that covers `addr`.
pub fn first_descriptor_containing(memory_map: &[MemoryDescriptor], addr: u64) -> (r: Option<usize>)
    requires
        descriptors_end_fit(memory_map@),
    ensures
        match r {
            Some(i) => first_containing(memory_map@, addr) == Some(i as int),
            None => first_containing(memory_map@, addr) is None,
        },
{
    let mut j: usize = 0;
    while j < memory_map.len()
        invariant
            j <= memory_map@.len(),
            descriptors_end_fit(memory_map@),
            forall|k: int| 0 <= k < j ==> !descriptor_contains(#[trigger] memory_map@[k], addr as int),
        decreases memory_map@.len() - j,
    {
        assert(descriptor_end(memory_map@[j as int]) <= u64::MAX);
        if contains_exec(&memory_map[j], addr) {
            proof {
                let ds = memory_map@;
                assert(is_first_containing(ds, addr, j as int));
                let i = choose|i: int| is_first_containing(ds, addr, i);
                assert(is_first_containing(ds, addr, i));
                if i < j as int {
                    assert(!descriptor_contains(ds[i], addr as int));
                }
                if (j as int) < i {
                    assert(!descriptor_contains(ds[j as int], addr as int));
                }
            }
            return Some(j);
        }
        j = j + 1;
    }
    proof {
        let ds = memory_map@;
        assert forall|i: int| !is_first_containing(ds, addr, i) by {
            if 0 <= i < ds.len() {
                assert(!descriptor_contains(ds[i], addr as int));
            }
        }
    }
    None
}

/// The descriptor covers one of the critical addresses.
pub fn covers_critical_address(d: &MemoryDescriptor, critical_addrs: &[u64]) -> (r: bool)
    requires
        descriptor_end(*d) <= u64::MAX,
    ensures
        r == covers_critical(*d, critical_addrs@),
{
    let mut j: usize = 0;
    while j < critical_addrs.len()
        invariant
            j <= critical_addrs@.len(),
            descriptor_end(*d) <= u64::MAX,
            forall|k: int| 0 <= k < j ==> !descriptor_contains(*d, #[trigger] critical_addrs@[k] as int),
        decreases critical_addrs@.len() - j,
    {
        if contains_exec(d, critical_addrs[j]) {
            assert(descriptor_contains(*d, critical_addrs@[j as int] as int));
            return true;
        }
        j = j + 1;
    }
    false
}

/// The order in which the loader maps the firmware's memory: the descriptor of
/// each critical address first (the loader's own code and data, which must stay
/// reachable while the page tables change), then all others that cover no
/// critical address. Each index is handed to [`map_descriptor`].
pub fn map_memory_from_uefi(memory_map: &[MemoryDescriptor], critical_addrs: &[u64]) -> (r: Vec<usize>)
    requires
        descriptors_end_fit(memory_map@),
    ensures
        r@ == spec_mapping_order(memory_map@, critical_addrs@),
        forall|k: int| 0 <= k < r@.len() ==> #[trigger] r@[k] < memory_map@.len(),
{
    let ghost ds = memory_map@;
    let ghost addrs = critical_addrs@;
    let mut order: Vec<usize> = Vec::new();
    let mut a: usize = 0;
    while a < critical_addrs.len()
        invariant
            a <= addrs.len(),
            ds == memory_map@,
            addrs == critical_addrs@,
            descriptors_end_fit(ds),
            order@ == critical_indices(ds, addrs.take(a as int)),
            forall|k: int| 0 <= k < order@.len() ==> #[trigger] order@[k] < ds.len(),
        decreases addrs.len() - a,
    {
        let addr = critical_addrs[a];
        let found = first_descriptor_containing(memory_map, addr);
        assert(addrs.take(a as int + 1).drop_last() =~= addrs.take(a as int));
        match found {
            Some(i) => {
                order.push(i);
            },
            None => {},
        }
        a = a + 1;
    }
    assert(addrs.take(a as int) =~= addrs);
    let ghost critical = order@;
    let mut i: usize = 0;
    while i < memory_map.len()
        invariant
            i <= ds.len(),
            ds == memory_map@,
            addrs == critical_addrs@,
            descriptors_end_fit(ds),
            order@ == critical + remaining_indices(ds, addrs, i as int),
            critical == critical_indices(ds, addrs),
            forall|k: int| 0 <= k < order@.len() ==> #[trigger] order@[k] < ds.len(),
        decreases ds.len() - i,
    {
        assert(descriptor_end(ds[i as int]) <= u64::MAX);
        let skip = covers_critical_address(&memory_map[i], critical_addrs);
        if !skip {
            order.push(i);
        }
        assert(order@ == critical + remaining_indices(ds, addrs, i as int + 1));
        i = i + 1;
    }
    order
}


/// No address lies in two descriptors.
pub open spec fn descriptors_disjoint(ds: Seq<MemoryDescriptor>) -> bool {
    forall|i: int, j: int, a: int|
        0 <= i < ds.len() && 0 <= j < ds.len() && i != j && #[trigger] descriptor_contains(ds[i], a)
            ==> !#[trigger] descriptor_contains(ds[j], a)
}

proof fn lemma_critical_indices_contain(ds: Seq<MemoryDescriptor>, addrs: Seq<u64>, j: int, i: int)
    requires
        0 <= j < addrs.len(),
        first_containing(ds, addrs[j]) == Some(i),
    ensures
        critical_indices(ds, addrs).contains(i as usize),
    decreases addrs.len(),
{
    let prev = critical_indices(ds, addrs.drop_last());
    if j == addrs.len() - 1 {
        assert(critical_indices(ds, addrs) == prev.push(i as usize));
        assert(critical_indices(ds, addrs)[prev.len() as int] == i as usize);
    } else {
        assert(addrs.drop_last()[j] == addrs[j]);
        lemma_critical_indices_contain(ds, addrs.drop_last(), j, i);
        let k = choose|k: int| 0 <= k < prev.len() && prev[k] == i as usize;
        match first_containing(ds, addrs.last()) {
            Some(l) => assert(critical_indices(ds, addrs)[k] == i as usize),
            None => assert(critical_indices(ds, addrs)[k] == i as usize),
        }
    }
}

proof fn lemma_remaining_indices_contain(ds: Seq<MemoryDescriptor>, addrs: Seq<u64>, n: int, i: int)
    requires
        0 <= i < n,
        !covers_critical(ds[i], addrs),
    ensures
        remaining_indices(ds, addrs, n).contains(i as usize),
    decreases n,
{
    let prev = remaining_indices(ds, addrs, n - 1);
    if i == n - 1 {
        assert(remaining_indices(ds, addrs, n)[prev.len() as int] == i as usize);
    } else {
        lemma_remaining_indices_contain(ds, addrs, n - 1, i);
        let k = choose|k: int| 0 <= k < prev.len() && prev[k] == i as usize;
        assert(remaining_indices(ds, addrs, n)[k] == i as usize);
    }
}

/// When no address lies in two descriptors, the loader maps every descriptor:
/// each index occurs in the order that `map_memory_from_uefi` returns.
pub proof fn lemma_every_descriptor_mapped(ds: Seq<MemoryDescriptor>, addrs: Seq<u64>, i: int)
    requires
        descriptors_disjoint(ds),
        0 <= i < ds.len(),
    ensures
        spec_mapping_order(ds, addrs).contains(i as usize),
{
    let crit = critical_indices(ds, addrs);
    let rest = remaining_indices(ds, addrs, ds.len() as int);
    if covers_critical(ds[i], addrs) {
        let j = choose|j: int| 0 <= j < addrs.len() && descriptor_contains(ds[i], #[trigger] addrs[j] as int);
        let a = addrs[j];
        assert forall|k: int| 0 <= k < i implies !descriptor_contains(#[trigger] ds[k], a as int) by {
            if descriptor_contains(ds[k], a as int) {
                assert(!descriptor_contains(ds[i], a as int));
            }
        }
        assert(is_first_containing(ds, a, i));
        let f = choose|f: int| is_first_containing(ds, a, f);
        assert(is_first_containing(ds, a, f));
        if f != i {
            assert(descriptor_contains(ds[f], a as int));
            assert(!descriptor_contains(ds[i], a as int));
        }
        assert(first_containing(ds, a) == Some(i));
        lemma_critical_indices_contain(ds, addrs, j, i);
        let k = choose|k: int| 0 <= k < crit.len() && crit[k] == i as usize;
        assert((crit + rest)[k] == i as usize);
    } else {
        lemma_remaining_indices_contain(ds, addrs, ds.len() as int, i);
        let k = choose|k: int| 0 <= k < rest.len() && rest[k] == i as usize;
        assert((crit + rest)[crit.len() + k] == i as usize);
    }
}


proof fn lemma_critical_indices_in_bounds(ds: Seq<MemoryDescriptor>, addrs: Seq<u64>)
    requires
        ds.len() <= usize::MAX,
    ensures
        forall|k: int| 0 <= k < critical_indices(ds, addrs).len()
            ==> #[trigger] critical_indices(ds, addrs)[k] < ds.len(),
    decreases addrs.len(),
{
    if addrs.len() > 0 {
        lemma_critical_indices_in_bounds(ds, addrs.drop_last());
        let prev = critical_indices(ds, addrs.drop_last());
        let a = addrs.last();
        if exists|i: int| is_first_containing(ds, a, i) {
            let i = choose|i: int| is_first_containing(ds, a, i);
            assert(is_first_containing(ds, a, i));
            assert(critical_indices(ds, addrs) == prev.push(i as usize));
            assert forall|k: int| 0 <= k < prev.len() + 1 implies #[trigger] prev.push(i as usize)[k] < ds.len() by {
                if k < prev.len() {
                    assert(prev.push(i as usize)[k] == prev[k]);
                }
            }
        }
    }
}

proof fn lemma_remaining_indices_in_bounds(ds: Seq<MemoryDescriptor>, addrs: Seq<u64>, n: int)
    requires
        n <= ds.len() <= usize::MAX,
    ensures
        forall|k: int| 0 <= k < remaining_indices(ds, addrs, n).len()
            ==> #[trigger] remaining_indices(ds, addrs, n)[k] < ds.len(),
    decreases n,
{
    if n > 0 {
        lemma_remaining_indices_in_bounds(ds, addrs, n - 1);
        let prev = remaining_indices(ds, addrs, n - 1);
        if !covers_critical(ds[n - 1], addrs) {
            assert forall|k: int| 0 <= k < prev.len() + 1 implies #[trigger] prev.push((n - 1) as usize)[k] < ds.len() by {
                if k < prev.len() {
                    assert(prev.push((n - 1) as usize)[k] == prev[k]);
                }
            }
        }
    }
}

/// With no address in two descriptors, the critical addresses decide only the
/// order in which the descriptors are mapped, not which are: for any list of
/// critical addresses the loader maps exactly the descriptors of the map.
pub proof fn lemma_mapped_descriptors_independent_of_critical(
    ds: Seq<MemoryDescriptor>,
    c1: Seq<u64>,
    c2: Seq<u64>,
)
    requires
        descriptors_disjoint(ds),
        ds.len() <= usize::MAX,
    ensures
        forall|i: usize| #[trigger] spec_mapping_order(ds, c1).contains(i) <==> i < ds.len(),
        spec_mapping_order(ds, c1).to_set() == spec_mapping_order(ds, c2).to_set(),
{
    assert forall|c: Seq<u64>, i: usize| #[trigger] spec_mapping_order(ds, c).contains(i) <==> i < ds.len() by {
        let order = spec_mapping_order(ds, c);
        lemma_critical_indices_in_bounds(ds, c);
        lemma_remaining_indices_in_bounds(ds, c, ds.len() as int);
        if order.contains(i) {
            let k = choose|k: int| 0 <= k < order.len() && order[k] == i;
            let crit = critical_indices(ds, c);
            if k < crit.len() {
                assert(crit[k] == order[k]);
            } else {
                assert(remaining_indices(ds, c, ds.len() as int)[k - crit.len()] == order[k]);
            }
        }
        if i < ds.len() {
            lemma_every_descriptor_mapped(ds, c, i as int);
        }
    }
    assert(spec_mapping_order(ds, c1).to_set() =~= spec_mapping_order(ds, c2).to_set());
}


/// By the firmware's type numbers: the kernel is told `Usable` exactly for
/// conventional memory (7), `Bad` exactly for unusable (8), ACPI reclaim (9),
/// ACPI non-volatile (10) and unaccepted (15) memory, and `Reserved` for every
/// other number, runtime services, loader, boot services and MMIO among them.
pub proof fn lemma_region_type_by_number(t: MemoryType)
    ensures
        spec_to_region_type(t) == MemoryRegionType::Usable <==> t.spec_raw() == 7,
        spec_to_region_type(t) == MemoryRegionType::Bad <==> (t.spec_raw() == 8 || t.spec_raw() == 9
            || t.spec_raw() == 10 || t.spec_raw() == 15),
        spec_to_region_type(t) == MemoryRegionType::Reserved <==> !(t.spec_raw() == 7 || t.spec_raw() == 8
            || t.spec_raw() == 9 || t.spec_raw() == 10 || t.spec_raw() == 15),
{
}

/// By the firmware's type numbers: the loader maps a descriptor exactly when
/// it is loader code or data (1, 2), boot-services code or data (3, 4) or
/// conventional memory (7); the mapping starts at `PHYS_MEM_OFFSET` plus the
/// physical start, covers all pages, and is writable for numbers 1 to 7
/// (loader, boot services, runtime services, conventional).
pub proof fn lemma_mapped_descriptors_by_number(d: MemoryDescriptor)
    ensures
        spec_map_descriptor(d) is Some <==> (1 <= d.ty.spec_raw() <= 4 || d.ty.spec_raw() == 7),
        spec_map_descriptor(d) matches Some(range) ==> {
            &&& range.phys_start == d.phys_start
            &&& range.virt_start == (PHYS_MEM_OFFSET + d.phys_start) as u64
            &&& range.page_count == d.page_count
            &&& range.flags.present
            &&& range.flags.writable <==> (1 <= d.ty.spec_raw() <= 7)
        },
{
}


/// By the firmware's type numbers: every mapping is present, and it is
/// writable exactly for loader, boot-services and runtime-services code and
/// data and conventional memory (1 to 7); the entry bits are 3 then, else 1.
pub proof fn lemma_flags_by_number(t: MemoryType)
    ensures
        spec_flags_for(t).present,
        spec_flags_for(t).writable <==> (1 <= t.spec_raw() <= 7),
        spec_flags_for(t).spec_bits() == if 1 <= t.spec_raw() <= 7 { 3int } else { 1int },
{
}

} // verus!
