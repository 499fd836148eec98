//! The values the loader works out while it boots: the framebuffer that the
//! kernel is told of, the size of the buffer for the kernel image, and where the
//! active level-4 page table is seen in the kernel's address space.
use vstd::prelude::*;
use crate::addr::{valid_phys_addr, phys_addr_new, virt_addr_new};
use crate::memory_map::{PHYS_MEM_OFFSET, DIRECT_MAP_LIMIT};
use crate::vect_bootapi::{FramebufferInfo, PixelFormat};

verus! {

/// The pixel formats that the firmware's graphics output protocol reports.
#[derive(Clone, Copy, Debug, PartialEq, Eq, Structural)]
pub enum GopPixelFormat {
    Rgb,
    Bgr,
    Bitmask,
    BltOnly,
}

pub open spec fn spec_kernel_pixel_format(format: GopPixelFormat) -> PixelFormat {
    match format {
        GopPixelFormat::Rgb => PixelFormat::RGB,
        GopPixelFormat::Bgr => PixelFormat::BGR,
        _ => PixelFormat::Undef,
    }
}

/// The pixel format that the kernel is told: red-green-blue and
/// blue-green-red are passed on, anything else is undefined.
pub fn kernel_pixel_format(format: GopPixelFormat) -> (r: PixelFormat)
    ensures
        r == spec_kernel_pixel_format(format),
{
    match format {
        GopPixelFormat::Rgb => PixelFormat::RGB,
        GopPixelFormat::Bgr => PixelFormat::BGR,
        _ => PixelFormat::Undef,
    }
}

/// The framebuffer that the kernel is told of, from the current mode of the
/// graphics output (its resolution, stride and pixel format) and the
/// framebuffer's address and size. The bytes per pixel are the size divided by
/// the stride times the height, which must be a nonzero `usize`.
pub fn get_framebuffer(
    address: u64,
    width: usize,
    height: usize,
    stride: usize,
    format: GopPixelFormat,
    fb_size: usize,
) -> (r: FramebufferInfo)
    requires
        valid_phys_addr(address as int),
        0 < stride * height <= usize::MAX,
    ensures
        r == (FramebufferInfo {
            address,
            width,
            height,
            stride,
            format: spec_kernel_pixel_format(format),
            bytes_per_pixel: (fb_size / (stride * height) as usize) as usize,
            byte_len: fb_size,
        }),
{
    let kernel_format = kernel_pixel_format(format);
    let line_pixels = stride * height;
    FramebufferInfo {
        address: phys_addr_new(address),
        width,
        height,
        stride,
        format: kernel_format,
        bytes_per_pixel: fb_size / line_pixels,
        byte_len: fb_size,
    }
}

/// The size of the buffer that receives the kernel image: the file size
/// rounded up to a multiple of 8.
pub fn kernel_buffer_len(file_size: u64) -> (r: usize)
    requires
        file_size + 7 <= usize::MAX,
    ensures
        r == (file_size + 7) / 8 * 8,
{
    let padded = file_size + 7;
    let rounded = padded & !7u64;
    assert(padded & !7u64 == (padded / 8) * 8) by (bit_vector);
    rounded as usize
}

/// Where the level-4 page table that starts at physical address `l4_phys` is
/// seen in the kernel's address space, at `PHYS_MEM_OFFSET` plus its address.
pub fn l4_table_virt_addr(l4_phys: u64) -> (r: u64)
    requires
        l4_phys < DIRECT_MAP_LIMIT,
    ensures
        r == PHYS_MEM_OFFSET + l4_phys,
{
    let phys_mem_offset = virt_addr_new(PHYS_MEM_OFFSET);
    let phys_addr = phys_addr_new(l4_phys);
    virt_addr_new(phys_mem_offset + phys_addr)
}

} // verus!
