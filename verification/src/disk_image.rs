//! The bootable disk image: a FAT volume with the loader at the firmware's
//! default boot path and the kernel beside it.
use vstd::prelude::*;

verus! {

/// Options of the disk image.
#[derive(Clone, Copy, Debug, PartialEq, Eq, Structural)]
pub struct BootConfig {
    /// Size of the image in MiB.
    pub image_size_mb: u64,
}

/// The image size when no configuration is given.
pub const DEFAULT_IMAGE_SIZE_MB: u64 = 64;

impl Default for BootConfig {
    fn default() -> (r: Self)
        ensures
            r.image_size_mb == DEFAULT_IMAGE_SIZE_MB,
    {
        BootConfig { image_size_mb: DEFAULT_IMAGE_SIZE_MB }
    }
}

/// Builds a UEFI disk image for a kernel.
pub struct UefiBoot {
    kernel_path: String,
    config: Option<BootConfig>,
}

/// Byte offset of the boot signature in the first sector.
pub const BOOT_SIGNATURE_OFFSET: u64 = 0x1FE;

/// Bytes per sector of the FAT volume.
pub const BYTES_PER_SECTOR: u16 = 512;

/// One MiB.
pub const MIB: u64 = 0x10_0000;

/// What goes into the disk image: its length in bytes, the boot signature
/// `0x55 0xAA` at `BOOT_SIGNATURE_OFFSET`, a FAT volume with 512-byte sectors
/// holding `EFI/BOOT/BOOTX64.EFI` (the loader) and `KERNEL.ELF` (a copy of the
/// file at `kernel_path`).
pub struct DiskImagePlan {
    pub image_len: u64,
    pub boot_signature_offset: u64,
    pub boot_signature: (u8, u8),
    pub bytes_per_sector: u16,
    pub efi_dir: &'static str,
    pub boot_dir: &'static str,
    pub boot_file: &'static str,
    pub kernel_file: &'static str,
    pub kernel_path: String,
}

/// The pattern that finds the loader's binary built for `profile`.
pub open spec fn spec_efi_glob_pattern(profile: Seq<char>) -> Seq<char> {
    "target/x86_64-unknown-uefi/"@ + profile + "/deps/artifact/vect_uefi-*/bin/vect_uefi-*.efi"@
}

/// The pattern that finds the loader's binary built for `profile`.
pub fn efi_glob_pattern(profile: &str) -> (r: String)
    ensures
        r@ == spec_efi_glob_pattern(profile@),
{
    let mut pattern = String::from_str("target/x86_64-unknown-uefi/");
    pattern.append(profile);
    pattern.append("/deps/artifact/vect_uefi-*/bin/vect_uefi-*.efi");
    pattern
}

impl UefiBoot {
    /// The path of the kernel to put into the image.
    pub closed spec fn spec_kernel_path(&self) -> Seq<char> {
        self.kernel_path@
    }

    /// The configuration, if one was given.
    pub closed spec fn spec_config(&self) -> Option<BootConfig> {
        self.config
    }

    /// The configuration in use: the one given, or the default.
    pub open spec fn effective_config(&self) -> BootConfig {
        match self.spec_config() {
            Some(c) => c,
            None => BootConfig { image_size_mb: DEFAULT_IMAGE_SIZE_MB },
        }
    }

    /// An image builder for the kernel at `kernel_path`, without configuration.
    pub fn new(kernel_path: String) -> (r: Self)
        ensures
            r.spec_kernel_path() == kernel_path@,
            r.spec_config() is None,
    {
        UefiBoot { kernel_path, config: None }
    }

    /// The same builder with `config`.
    pub fn with_config(self, config: BootConfig) -> (r: Self)
        ensures
            r.spec_kernel_path() == self.spec_kernel_path(),
            r.spec_config() == Some(config),
    {
        let mut s = self;
        s.config = Some(config);
        s
    }

    /// The configuration in use.
    pub fn boot_config(&self) -> (r: BootConfig)
        ensures
            r == self.effective_config(),
    {
        match self.config {
            Some(c) => c,
            None => BootConfig::default(),
        }
    }

    /// What `create_disk_image` writes. The image size in bytes must fit a `u64`.
    pub fn disk_image_plan(&self) -> (r: DiskImagePlan)
        requires
            self.effective_config().image_size_mb * MIB <= u64::MAX,
        ensures
            r.image_len == self.effective_config().image_size_mb * MIB,
            r.boot_signature_offset == BOOT_SIGNATURE_OFFSET,
            r.boot_signature == (0x55u8, 0xAAu8),
            r.bytes_per_sector == BYTES_PER_SECTOR,
            r.efi_dir@ == "EFI"@,
            r.boot_dir@ == "BOOT"@,
            r.boot_file@ == "BOOTX64.EFI"@,
            r.kernel_file@ == "KERNEL.ELF"@,
            r.kernel_path@ == self.spec_kernel_path(),
    {
        let config = self.boot_config();
        DiskImagePlan {
            image_len: config.image_size_mb * 1024 * 1024,
            boot_signature_offset: BOOT_SIGNATURE_OFFSET,
            boot_signature: (0x55, 0xAA),
            bytes_per_sector: BYTES_PER_SECTOR,
            efi_dir: "EFI",
            boot_dir: "BOOT",
            boot_file: "BOOTX64.EFI",
            kernel_file: "KERNEL.ELF",
            kernel_path: self.kernel_path.clone(),
        }
    }
}

} // verus!
