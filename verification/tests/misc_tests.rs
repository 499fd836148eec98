use vect_boot::boot::{get_framebuffer, kernel_buffer_len, kernel_pixel_format, l4_table_virt_addr, GopPixelFormat};
use vect_boot::disk_image::{efi_glob_pattern, BootConfig, UefiBoot};
use vect_boot::logger::{PortWrite, SerialLogger, SerialWriter};
use vect_boot::vect_bootapi::PixelFormat;

#[test]
fn serial_init_sequence() {
    let w = SerialLogger::init_sequence();
    assert_eq!(w.len(), 7);
    assert_eq!(w[0], PortWrite { port: 0x3F9, value: 0x00 });
    assert_eq!(w[1], PortWrite { port: 0x3FB, value: 0x80 });
    assert_eq!(w[2], PortWrite { port: 0x3F8, value: 0x03 });
    assert_eq!(w[5], PortWrite { port: 0x3FA, value: 0xC7 });
    assert_eq!(w[6], PortWrite { port: 0x3FC, value: 0x0B });
}

#[test]
fn serial_transmit_ready() {
    assert!(SerialLogger::transmit_ready(0x20));
    assert!(SerialLogger::transmit_ready(0x60));
    assert!(!SerialLogger::transmit_ready(0x01));
    assert!(!SerialLogger::transmit_ready(0));
}

#[test]
fn serial_line_feeds_are_doubled() {
    assert_eq!(SerialWriter::serial_bytes(b"a\nb"), b"a\n\nb".to_vec());
    assert_eq!(SerialWriter::serial_bytes(b"INFO - hi\n"), b"INFO - hi\n\n".to_vec());
    assert_eq!(SerialWriter::serial_bytes(b""), Vec::<u8>::new());
}

#[test]
fn framebuffer_info() {
    let fb = get_framebuffer(0x8000_0000, 1024, 768, 1024, GopPixelFormat::Bgr, 1024 * 768 * 4);
    assert_eq!(fb.address, 0x8000_0000);
    assert_eq!(fb.bytes_per_pixel, 4);
    assert_eq!(fb.byte_len, 1024 * 768 * 4);
    assert_eq!(fb.format, PixelFormat::BGR);
    assert_eq!(fb.format.as_u32(), 1);
    assert_eq!(kernel_pixel_format(GopPixelFormat::Rgb), PixelFormat::RGB);
    assert_eq!(kernel_pixel_format(GopPixelFormat::Bitmask), PixelFormat::Undef);
    assert_eq!(kernel_pixel_format(GopPixelFormat::BltOnly), PixelFormat::Undef);
}

#[test]
fn kernel_buffer_is_rounded_to_eight() {
    assert_eq!(kernel_buffer_len(0), 0);
    assert_eq!(kernel_buffer_len(1), 8);
    assert_eq!(kernel_buffer_len(13), 16);
    assert_eq!(kernel_buffer_len(16), 16);
}

#[test]
fn level_four_table_address() {
    assert_eq!(l4_table_virt_addr(0x1000), 0xFFFF_8000_0000_1000);
    assert_eq!(l4_table_virt_addr(0), 0xFFFF_8000_0000_0000);
}

#[test]
fn boot_config_and_plan() {
    assert_eq!(BootConfig::default().image_size_mb, 64);
    let boot = UefiBoot::new(String::from("kernel.elf"));
    assert_eq!(boot.boot_config(), BootConfig { image_size_mb: 64 });
    let plan = boot.disk_image_plan();
    assert_eq!(plan.image_len, 64 * 1024 * 1024);
    assert_eq!(plan.boot_signature_offset, 0x1FE);
    assert_eq!(plan.boot_signature, (0x55, 0xAA));
    assert_eq!(plan.bytes_per_sector, 512);
    assert_eq!(plan.efi_dir, "EFI");
    assert_eq!(plan.boot_dir, "BOOT");
    assert_eq!(plan.boot_file, "BOOTX64.EFI");
    assert_eq!(plan.kernel_file, "KERNEL.ELF");
    assert_eq!(plan.kernel_path, "kernel.elf");
    let boot = boot.with_config(BootConfig { image_size_mb: 2 });
    assert_eq!(boot.boot_config().image_size_mb, 2);
    assert_eq!(boot.disk_image_plan().image_len, 2 * 1024 * 1024);
}

#[test]
fn efi_pattern() {
    assert_eq!(
        efi_glob_pattern("release"),
        "target/x86_64-unknown-uefi/release/deps/artifact/vect_uefi-*/bin/vect_uefi-*.efi"
    );
}

/// The 16550 registers as port writes leave them: IER, DLL, DLM, LCR, FCR, MCR.
fn apply(mut r: [u8; 6], writes: &[PortWrite]) -> [u8; 6] {
    for w in writes {
        let dlab = r[3] >= 0x80;
        match w.port {
            0x3F8 => {
                if dlab {
                    r[1] = w.value
                }
            }
            0x3F9 => {
                if dlab {
                    r[2] = w.value
                } else {
                    r[0] = w.value
                }
            }
            0x3FA => r[4] = w.value,
            0x3FB => r[3] = w.value,
            0x3FC => r[5] = w.value,
            _ => {}
        }
    }
    r
}

#[test]
fn serial_init_twice_is_init_once() {
    let w = SerialLogger::init_sequence();
    let start = [0x0F, 0x11, 0x22, 0x03, 0x00, 0x00];
    let once = apply(start, &w);
    assert_eq!(once, [0x00, 0x03, 0x00, 0x03, 0xC7, 0x0B]);
    assert_eq!(apply(once, &w), once);
}
