//! The first version of the boot information, without the framebuffer's
//! pixel size and length.
use vstd::prelude::*;

verus! {

/// A range `[start, end)` of physical memory and what it may be used for.
#[derive(Clone, Copy, Debug, PartialEq, Eq, Structural)]
pub struct MemoryRegion {
    pub start: u64,
    pub end: u64,
    pub kind: MemoryRegionType,
}

/// What a memory region may be used for. The kernel reads it as a `u32`
/// (see [`MemoryRegionType::as_u32`]).
#[derive(Clone, Copy, Debug, PartialEq, Eq, Structural)]
pub enum MemoryRegionType {
    Usable,
    Reserved,
    ACPI,
    Bad,
    Unknown,
}

impl MemoryRegionType {
    /// The value that stands for the region type in the boot information.
    pub open spec fn repr(self) -> u32 {
        match self {
            MemoryRegionType::Usable => 1,
            MemoryRegionType::Reserved => 2,
            MemoryRegionType::ACPI => 3,
            MemoryRegionType::Bad => 4,
            MemoryRegionType::Unknown => 0,
        }
    }

    pub fn as_u32(self) -> (r: u32)
        ensures
            r == self.repr(),
    {
        match self {
            MemoryRegionType::Usable => 1,
            MemoryRegionType::Reserved => 2,
            MemoryRegionType::ACPI => 3,
            MemoryRegionType::Bad => 4,
            MemoryRegionType::Unknown => 0,
        }
    }
}

/// The framebuffer that the firmware set up.
#[derive(Clone, Copy, Debug, PartialEq, Eq, Structural)]
pub struct FramebufferInfo {
    pub address: u64,
    pub width: usize,
    pub height: usize,
    pub stride: usize,
    pub format: PixelFormat,
}

/// The order of the colour channels in a pixel. The kernel reads it as a
/// `u32` (see [`PixelFormat::as_u32`]).
#[derive(Clone, Copy, Debug, PartialEq, Eq, Structural)]
pub enum PixelFormat {
    RGB,
    BGR,
    Undef,
}

impl PixelFormat {
    /// The value that stands for the pixel format in the boot information.
    pub open spec fn repr(self) -> u32 {
        match self {
            PixelFormat::RGB => 0,
            PixelFormat::BGR => 1,
            PixelFormat::Undef => 2,
        }
    }

    pub fn as_u32(self) -> (r: u32)
        ensures
            r == self.repr(),
    {
        match self {
            PixelFormat::RGB => 0,
            PixelFormat::BGR => 1,
            PixelFormat::Undef => 2,
        }
    }
}

/// Everything the kernel receives from the loader.
pub struct BootInfo {
    pub memory_map: Vec<MemoryRegion>,
    pub framebuffer: Option<FramebufferInfo>,
    pub kernel_entry: u64,
}

} // verus!
