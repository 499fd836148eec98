//! Verified core of a small x86_64 UEFI bootloader: the boot-information
//! types handed to the kernel, the UEFI memory-map conversions, the boot frame
//! allocator, the ELF kernel reader, the serial-port byte stream and the
//! layout of the bootable disk image.

pub mod addr;
pub mod bootloader_api;
pub mod vect_bootapi;
pub mod memory_map;
pub mod allocator;
pub mod elf_reader;
pub mod logger;
pub mod boot;
pub mod disk_image;
