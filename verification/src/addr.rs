//! Physical and virtual addresses, as the `x86_64` crate accepts them.
use vstd::prelude::*;

verus! {

/// Size of a 4 KiB page or frame.
pub const PAGE_SIZE: u64 = 4096;

/// One past the largest physical address: bits 52 to 63 must be clear.
pub const PHYS_ADDR_LIMIT: u64 = 0x10_0000_0000_0000;

/// A physical address is valid when no bit in the range 52 to 63 is set.
pub open spec fn valid_phys_addr(addr: int) -> bool {
    0 <= addr < PHYS_ADDR_LIMIT
}

/// A virtual address is canonical when bits 48 to 63 copy bit 47, that is,
/// when it lies in the lower or in the upper half of the address space.
pub open spec fn canonical_virt_addr(addr: int) -> bool {
    ||| 0 <= addr < 0x8000_0000_0000
    ||| 0xFFFF_8000_0000_0000 <= addr <= u64::MAX
}

/// `x86_64::PhysAddr::new`: accepts an address below 2^52 and keeps it as it is.
/// The crate panics on any other address, which `requires` leaves out.
#[verifier::external_body]
pub fn phys_addr_new(addr: u64) -> (r: u64)
    requires
        valid_phys_addr(addr as int),
    ensures
        r == addr,
{
    x86_64::PhysAddr::new(addr).as_u64()
}

/// `x86_64::VirtAddr::new`: accepts a canonical address and keeps it as it is.
/// The crate panics on a non-canonical address, which `requires` leaves out.
#[verifier::external_body]
pub fn virt_addr_new(addr: u64) -> (r: u64)
    requires
        canonical_virt_addr(addr as int),
    ensures
        r == addr,
{
    x86_64::VirtAddr::new(addr).as_u64()
}

/// `x86_64::VirtAddr::try_new`: `Ok` with the address unchanged when it is
/// canonical, an error otherwise.
#[verifier::external_body]
pub fn virt_addr_try_new(addr: u64) -> (r: Option<u64>)
    ensures
        r == (if canonical_virt_addr(addr as int) { Some(addr) } else { None::<u64> }),
{
    match x86_64::VirtAddr::try_new(addr) {
        Ok(v) => Some(v.as_u64()),
        Err(_) => None,
    }
}

/// `x86_64::structures::paging::PhysFrame::<Size4KiB>::from_start_address`:
/// a frame that starts at `addr` when `addr` is 4 KiB aligned, an error
/// otherwise. The frame is handed back by its start address.
#[verifier::external_body]
pub fn phys_frame_from_start_address(addr: u64) -> (r: Option<u64>)
    requires
        valid_phys_addr(addr as int),
    ensures
        r == (if addr % PAGE_SIZE == 0 { Some(addr) } else { None::<u64> }),
{
    let start = x86_64::PhysAddr::new(addr);
    match x86_64::structures::paging::PhysFrame::<x86_64::structures::paging::Size4KiB>::from_start_address(start) {
        Ok(frame) => Some(frame.start_address().as_u64()),
        Err(_) => None,
    }
}

} // verus!
