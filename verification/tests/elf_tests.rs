use vect_boot::elf_reader::{parse_elf, segment_bytes, ElfError, LoadSegment};

fn put_u16(b: &mut [u8], off: usize, v: u16) {
    b[off..off + 2].copy_from_slice(&v.to_le_bytes());
}
fn put_u32(b: &mut [u8], off: usize, v: u32) {
    b[off..off + 4].copy_from_slice(&v.to_le_bytes());
}
fn put_u64(b: &mut [u8], off: usize, v: u64) {
    b[off..off + 8].copy_from_slice(&v.to_le_bytes());
}

/// An image with two program headers: a PT_LOAD one and a PT_NOTE one.
fn sample_image(entry: u64) -> Vec<u8> {
    let mut b = vec![0u8; 64 + 2 * 56 + 16];
    b[0..4].copy_from_slice(&[0x7f, b'E', b'L', b'F']);
    put_u64(&mut b, 24, entry);
    put_u64(&mut b, 32, 64);
    put_u16(&mut b, 54, 56);
    put_u16(&mut b, 56, 2);
    // PT_LOAD
    put_u32(&mut b, 64, 1);
    put_u64(&mut b, 64 + 8, 176);
    put_u64(&mut b, 64 + 16, 0xFFFF_FFFF_8000_0000);
    put_u64(&mut b, 64 + 32, 16);
    put_u64(&mut b, 64 + 40, 0x20);
    // PT_NOTE
    put_u32(&mut b, 120, 4);
    put_u64(&mut b, 120 + 8, 0x1000);
    for i in 0..16 {
        b[176 + i] = i as u8 + 1;
    }
    b
}

#[test]
fn parse_elf_reads_entry_and_load_segments() {
    let img = parse_elf(&sample_image(0xFFFF_FFFF_8000_0010)).unwrap();
    assert_eq!(img.entry, 0xFFFF_FFFF_8000_0010);
    assert_eq!(
        img.segments,
        vec![LoadSegment { vaddr: 0xFFFF_FFFF_8000_0000, offset: 176, file_size: 16, mem_size: 0x20 }]
    );
}

#[test]
fn parse_elf_rejects_short_image() {
    assert_eq!(parse_elf(&[0u8; 63]).err(), Some(ElfError::HeaderTruncated));
    assert_eq!(parse_elf(&[]).err(), Some(ElfError::HeaderTruncated));
}

#[test]
fn parse_elf_with_no_program_headers() {
    let mut b = vec![0u8; 64];
    put_u64(&mut b, 24, 0x1000);
    let img = parse_elf(&b).unwrap();
    assert_eq!(img.entry, 0x1000);
    assert!(img.segments.is_empty());
}

#[test]
fn parse_elf_rejects_program_header_outside() {
    let mut b = sample_image(0x1000);
    put_u16(&mut b, 56, 3);
    assert_eq!(parse_elf(&b).err(), Some(ElfError::ProgramHeaderOutOfBounds { index: 2 }));
    let mut c = sample_image(0x1000);
    put_u64(&mut c, 32, u64::MAX - 10);
    assert_eq!(parse_elf(&c).err(), Some(ElfError::ProgramHeaderOutOfBounds { index: 0 }));
}

#[test]
fn parse_elf_rejects_segment_outside() {
    let mut b = sample_image(0x1000);
    put_u64(&mut b, 64 + 32, 17);
    assert_eq!(parse_elf(&b).err(), Some(ElfError::SegmentOutOfBounds { index: 0 }));
    // A segment that is not loaded may point anywhere.
    let mut c = sample_image(0x1000);
    put_u64(&mut c, 120 + 32, 0x10_0000);
    assert!(parse_elf(&c).is_ok());
}

#[test]
fn parse_elf_rejects_non_canonical_entry() {
    let b = sample_image(0x0000_8000_0000_0000);
    assert_eq!(
        parse_elf(&b).err(),
        Some(ElfError::NonCanonicalEntry { entry: 0x0000_8000_0000_0000 })
    );
    assert!(parse_elf(&sample_image(0x0000_7FFF_FFFF_FFFF)).is_ok());
    assert!(parse_elf(&sample_image(0xFFFF_8000_0000_0000)).is_ok());
}

#[test]
fn segment_bytes_pads_with_zeros() {
    let b = sample_image(0x1000);
    let img = parse_elf(&b).unwrap();
    let bytes = segment_bytes(&b, &img.segments[0]);
    let mut expected: Vec<u8> = (1..=16).collect();
    expected.extend_from_slice(&[0u8; 16]);
    assert_eq!(bytes, expected);
    let short = LoadSegment { vaddr: 0, offset: 176, file_size: 4, mem_size: 2 };
    assert_eq!(segment_bytes(&b, &short), vec![1, 2, 3, 4]);
}
