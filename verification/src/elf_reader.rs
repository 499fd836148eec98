//! Reading the kernel's ELF64 image: its entry point and the segments to load.
use vstd::prelude::*;
use vstd::bytes::{spec_u16_from_le_bytes, spec_u32_from_le_bytes, spec_u64_from_le_bytes, u16_from_le_bytes, u32_from_le_bytes, u64_from_le_bytes};
use crate::addr::{canonical_virt_addr, virt_addr_try_new};

verus! {

/// Size of the ELF64 file header.
pub const ELF64_HEADER_SIZE: usize = 64;

/// Size of one ELF64 program header.
pub const ELF64_PROGRAM_HEADER_SIZE: usize = 56;

/// Program-header type of a segment that is loaded into memory.
pub const PT_LOAD: u32 = 1;

pub open spec fn read_u16(s: Seq<u8>, off: int) -> u16 {
    spec_u16_from_le_bytes(s.subrange(off, off + 2))
}

pub open spec fn read_u32(s: Seq<u8>, off: int) -> u32 {
    spec_u32_from_le_bytes(s.subrange(off, off + 4))
}

pub open spec fn read_u64(s: Seq<u8>, off: int) -> u64 {
    spec_u64_from_le_bytes(s.subrange(off, off + 8))
}

/// The header's fields that the loader reads.
pub open spec fn e_entry(s: Seq<u8>) -> u64 { read_u64(s, 24) }
pub open spec fn e_phoff(s: Seq<u8>) -> u64 { read_u64(s, 32) }
pub open spec fn e_phentsize(s: Seq<u8>) -> u16 { read_u16(s, 54) }
pub open spec fn e_phnum(s: Seq<u8>) -> u16 { read_u16(s, 56) }

/// Where the `i`-th program header starts.
pub open spec fn ph_start(s: Seq<u8>, i: int) -> int {
    e_phoff(s) + i * e_phentsize(s)
}

/// The `i`-th program header lies inside the image.
pub open spec fn ph_in_bounds(s: Seq<u8>, i: int) -> bool {
    ph_start(s, i) + ELF64_PROGRAM_HEADER_SIZE <= s.len()
}

/// A segment to load: `file_size` bytes from `offset` in the image go to
/// `vaddr`, followed by zeros up to `mem_size` bytes.
#[derive(Clone, Copy, Debug, PartialEq, Eq, Structural)]
pub struct LoadSegment {
    pub vaddr: u64,
    pub offset: u64,
    pub file_size: u64,
    pub mem_size: u64,
}

/// The type of the `i`-th program header.
pub open spec fn ph_type(s: Seq<u8>, i: int) -> u32 {
    read_u32(s, ph_start(s, i))
}

/// The segment that the `i`-th program header describes.
pub open spec fn ph_segment(s: Seq<u8>, i: int) -> LoadSegment {
    let p = ph_start(s, i);
    LoadSegment {
        vaddr: read_u64(s, p + 16),
        offset: read_u64(s, p + 8),
        file_size: read_u64(s, p + 32),
        mem_size: read_u64(s, p + 40),
    }
}

/// Why an image cannot be loaded.
#[derive(Clone, Copy, Debug, PartialEq, Eq, Structural)]
pub enum ElfError {
    /// The image is shorter than the ELF64 header.
    HeaderTruncated,
    /// The program header of this index lies (partly) outside the image.
    ProgramHeaderOutOfBounds { index: u16 },
    /// The loadable segment of this index takes bytes from outside the image.
    SegmentOutOfBounds { index: u16 },
    /// The entry point is not a canonical virtual address.
    NonCanonicalEntry { entry: u64 },
}

/// What is wrong with the `i`-th program header, if anything.
pub open spec fn ph_error(s: Seq<u8>, i: int) -> Option<ElfError> {
    if !ph_in_bounds(s, i) {
        Some(ElfError::ProgramHeaderOutOfBounds { index: i as u16 })
    } else if ph_type(s, i) == PT_LOAD && ph_segment(s, i).offset + ph_segment(s, i).file_size > s.len() {
        Some(ElfError::SegmentOutOfBounds { index: i as u16 })
    } else {
        None
    }
}

/// The first error among the first `n` program headers.
pub open spec fn first_ph_error(s: Seq<u8>, n: int) -> Option<ElfError>
    decreases n,
{
    if n <= 0 {
        None
    } else {
        match first_ph_error(s, n - 1) {
            Some(e) => Some(e),
            None => ph_error(s, n - 1),
        }
    }
}

/// The loadable segments among the first `n` program headers, in order.
pub open spec fn load_segments(s: Seq<u8>, n: int) -> Seq<LoadSegment>
    decreases n,
{
    if n <= 0 {
        seq![]
    } else {
        let prev = load_segments(s, n - 1);
        if ph_type(s, n - 1) == PT_LOAD {
            prev.push(ph_segment(s, n - 1))
        } else {
            prev
        }
    }
}

/// What the image yields: its entry point and its loadable segments, or the
/// first problem found, looking at the header, then at the program headers in
/// order, then at the entry point.
pub open spec fn spec_parse_elf(s: Seq<u8>) -> Result<(u64, Seq<LoadSegment>), ElfError> {
    if s.len() < ELF64_HEADER_SIZE {
        Err(ElfError::HeaderTruncated)
    } else {
        match first_ph_error(s, e_phnum(s) as int) {
            Some(e) => Err(e),
            None => if canonical_virt_addr(e_entry(s) as int) {
                Ok((e_entry(s), load_segments(s, e_phnum(s) as int)))
            } else {
                Err(ElfError::NonCanonicalEntry { entry: e_entry(s) })
            },
        }
    }
}

proof fn lemma_first_error_stable(s: Seq<u8>, k: int, m: int)
    requires
        0 <= k <= m,
        first_ph_error(s, k) is Some,
    ensures
        first_ph_error(s, m) == first_ph_error(s, k),
    decreases m - k,
{
    if m > k {
        lemma_first_error_stable(s, k, m - 1);
    }
}

/// The kernel's entry point and the segments to load.
pub struct ElfImage {
    pub entry: u64,
    pub segments: Vec<LoadSegment>,
}

/// Reads the kernel image: its entry point and every `PT_LOAD` segment, in the
/// order of the program headers.
pub fn parse_elf(kernel_image: &[u8]) -> (r: Result<ElfImage, ElfError>)
    ensures
        match spec_parse_elf(kernel_image@) {
            Ok((entry, segments)) => r matches Ok(img) && img.entry == entry && img.segments@ == segments,
            Err(e) => r matches Err(e2) && e2 == e,
        },
{
    let ghost s = kernel_image@;
    let len = kernel_image.len();
    if len < ELF64_HEADER_SIZE {
        return Err(ElfError::HeaderTruncated);
    }
    let entry = u64_from_le_bytes(&kernel_image[24..32]);
    let phoff = u64_from_le_bytes(&kernel_image[32..40]);
    let phentsize = u16_from_le_bytes(&kernel_image[54..56]);
    let phnum = u16_from_le_bytes(&kernel_image[56..58]);
    let mut segments: Vec<LoadSegment> = Vec::new();
    let mut i: u16 = 0;
    while i < phnum
        invariant
            s == kernel_image@,
            len == s.len(),
            len >= ELF64_HEADER_SIZE,
            i <= phnum,
            phoff == e_phoff(s),
            phentsize == e_phentsize(s),
            phnum == e_phnum(s),
            first_ph_error(s, i as int) is None,
            segments@ == load_segments(s, i as int),
        decreases phnum - i,
    {
        assert((i as int) * (phentsize as int) <= 0xFFFF * 0xFFFF) by (nonlinear_arith)
            requires i <= 0xFFFF, phentsize <= 0xFFFF;
        let step = (i as u64) * (phentsize as u64);
        let start = match phoff.checked_add(step) {
            Some(v) => v,
            None => {
                proof {
                    assert(ph_error(s, i as int) == Some(ElfError::ProgramHeaderOutOfBounds { index: i }));
                    lemma_first_error_stable(s, i as int + 1, phnum as int);
                }
                return Err(ElfError::ProgramHeaderOutOfBounds { index: i });
            },
        };
        if start > (len - ELF64_PROGRAM_HEADER_SIZE) as u64 {
            proof {
                assert(ph_error(s, i as int) == Some(ElfError::ProgramHeaderOutOfBounds { index: i }));
                lemma_first_error_stable(s, i as int + 1, phnum as int);
            }
            return Err(ElfError::ProgramHeaderOutOfBounds { index: i });
        }
        let p = start as usize;
        let p_type = u32_from_le_bytes(&kernel_image[p..p + 4]);
        let p_offset = u64_from_le_bytes(&kernel_image[p + 8..p + 16]);
        let p_vaddr = u64_from_le_bytes(&kernel_image[p + 16..p + 24]);
        let p_filesz = u64_from_le_bytes(&kernel_image[p + 32..p + 40]);
        let p_memsz = u64_from_le_bytes(&kernel_image[p + 40..p + 48]);
        let segment = LoadSegment { vaddr: p_vaddr, offset: p_offset, file_size: p_filesz, mem_size: p_memsz };
        assert(segment == ph_segment(s, i as int));
        if p_type == PT_LOAD {
            let fits = match p_offset.checked_add(p_filesz) {
                Some(end) => end <= len as u64,
                None => false,
            };
            if !fits {
                proof {
                    assert(ph_error(s, i as int) == Some(ElfError::SegmentOutOfBounds { index: i }));
                    lemma_first_error_stable(s, i as int + 1, phnum as int);
                }
                return Err(ElfError::SegmentOutOfBounds { index: i });
            }
            segments.push(segment);
        }
        i = i + 1;
    }
    match virt_addr_try_new(entry) {
        Some(e) => Ok(ElfImage { entry: e, segments }),
        None => Err(ElfError::NonCanonicalEntry { entry }),
    }
}

/// The bytes that a segment puts into memory: its `file_size` bytes of the
/// image, then zeros up to `mem_size` when that is larger.
pub open spec fn spec_segment_bytes(s: Seq<u8>, seg: LoadSegment) -> Seq<u8> {
    let zeros = if seg.mem_size > seg.file_size { seg.mem_size - seg.file_size } else { 0 };
    s.subrange(seg.offset as int, seg.offset + seg.file_size) + Seq::new(zeros as nat, |k: int| 0u8)
}

/// The bytes to copy to the segment's address.
pub fn segment_bytes(kernel_image: &[u8], segment: &LoadSegment) -> (r: Vec<u8>)
    requires
        segment.offset + segment.file_size <= kernel_image@.len(),
        segment.mem_size <= usize::MAX,
    ensures
        r@ == spec_segment_bytes(kernel_image@, *segment),
{
    let len = kernel_image.len();
    let start = segment.offset as usize;
    let file_size = segment.file_size as usize;
    let mut bytes: Vec<u8> = Vec::new();
    let mut k: usize = 0;
    while k < file_size
        invariant
            len == kernel_image@.len(),
            start + file_size <= kernel_image@.len(),
            start == segment.offset,
            file_size == segment.file_size,
            k <= file_size,
            bytes@ == kernel_image@.subrange(start as int, start + k),
        decreases file_size - k,
    {
        bytes.push(kernel_image[start + k]);
        assert(kernel_image@.subrange(start as int, start + k + 1)
            =~= kernel_image@.subrange(start as int, start + k).push(kernel_image@[start + k]));
        k = k + 1;
    }
    if segment.mem_size > segment.file_size {
        let zeros = (segment.mem_size - segment.file_size) as usize;
        let ghost file_part = bytes@;
        let mut z: usize = 0;
        while z < zeros
            invariant
                z <= zeros,
                bytes@ == file_part + Seq::new(z as nat, |k: int| 0u8),
            decreases zeros - z,
        {
            bytes.push(0u8);
            assert(file_part + Seq::new((z + 1) as nat, |k: int| 0u8)
                =~= (file_part + Seq::new(z as nat, |k: int| 0u8)).push(0u8));
            z = z + 1;
        }
    }
    proof {
        if !(segment.mem_size > segment.file_size) {
            assert(bytes@ =~= bytes@ + Seq::new(0nat, |k: int| 0u8));
        }
    }
    bytes
}


/// The loadable segments among the first `n` program headers are exactly those
/// headers whose type is `PT_LOAD`, in the order of the headers: `idx` gives,
/// for each segment, the header it comes from; the headers are increasing, each
/// is a `PT_LOAD` header, and every `PT_LOAD` header below `n` is among them.
pub proof fn lemma_load_segments_are_load_headers(s: Seq<u8>, n: int) -> (idx: Seq<int>)
    ensures
        idx.len() == load_segments(s, n).len(),
        forall|k: int| 0 <= k < idx.len() ==> {
            &&& 0 <= #[trigger] idx[k] < n
            &&& ph_type(s, idx[k]) == PT_LOAD
            &&& load_segments(s, n)[k] == ph_segment(s, idx[k])
        },
        forall|k1: int, k2: int| 0 <= k1 < k2 < idx.len() ==> #[trigger] idx[k1] < #[trigger] idx[k2],
        forall|i: int| 0 <= i < n && ph_type(s, i) == PT_LOAD ==> exists|k: int| 0 <= k < idx.len() && #[trigger] idx[k] == i,
    decreases n,
{
    if n <= 0 {
        seq![]
    } else {
        let prev = lemma_load_segments_are_load_headers(s, n - 1);
        if ph_type(s, n - 1) == PT_LOAD {
            let idx = prev.push(n - 1);
            assert forall|k: int| 0 <= k < idx.len() implies {
                &&& 0 <= #[trigger] idx[k] < n
                &&& ph_type(s, idx[k]) == PT_LOAD
                &&& load_segments(s, n)[k] == ph_segment(s, idx[k])
            } by {
                if k < prev.len() {
                    assert(idx[k] == prev[k]);
                }
            }
            assert forall|k1: int, k2: int| 0 <= k1 < k2 < idx.len() implies #[trigger] idx[k1] < #[trigger] idx[k2] by {
                assert(idx[k1] == prev[k1]);
                if k2 < prev.len() {
                    assert(idx[k2] == prev[k2]);
                }
            }
            assert forall|i: int| 0 <= i < n && ph_type(s, i) == PT_LOAD implies exists|k: int| 0 <= k < idx.len() && #[trigger] idx[k] == i by {
                if i == n - 1 {
                    assert(idx[prev.len() as int] == i);
                } else {
                    let k = choose|k: int| 0 <= k < prev.len() && #[trigger] prev[k] == i;
                    assert(idx[k] == i);
                }
            }
            idx
        } else {
            prev
        }
    }
}

/// For an image that `parse_elf` accepts, the segments it returns are exactly
/// the `PT_LOAD` program headers, in order: one segment for each of them, with
/// the header's address, offset and sizes, and no other.
pub proof fn lemma_parsed_segments_are_load_headers(s: Seq<u8>) -> (idx: Seq<int>)
    requires
        spec_parse_elf(s) is Ok,
    ensures
        ({
            let segments = spec_parse_elf(s)->Ok_0.1;
            &&& idx.len() == segments.len()
            &&& forall|k: int| 0 <= k < idx.len() ==> {
                &&& 0 <= #[trigger] idx[k] < e_phnum(s)
                &&& ph_type(s, idx[k]) == PT_LOAD
                &&& segments[k] == ph_segment(s, idx[k])
            }
            &&& forall|k1: int, k2: int| 0 <= k1 < k2 < idx.len() ==> #[trigger] idx[k1] < #[trigger] idx[k2]
            &&& forall|i: int| 0 <= i < e_phnum(s) && ph_type(s, i) == PT_LOAD
                ==> exists|k: int| 0 <= k < idx.len() && #[trigger] idx[k] == i
        }),
{
    lemma_load_segments_are_load_headers(s, e_phnum(s) as int)
}

/// What a segment puts into memory: `max(file_size, mem_size)` bytes, the first
/// `file_size` of them taken from the image at `offset`, all later ones zero.
pub proof fn lemma_segment_bytes_layout(s: Seq<u8>, seg: LoadSegment)
    requires
        seg.offset + seg.file_size <= s.len(),
    ensures
        spec_segment_bytes(s, seg).len() == if seg.mem_size > seg.file_size { seg.mem_size as int } else { seg.file_size as int },
        forall|k: int| 0 <= k < seg.file_size ==> #[trigger] spec_segment_bytes(s, seg)[k] == s[seg.offset + k],
        forall|k: int| seg.file_size <= k < spec_segment_bytes(s, seg).len() ==> #[trigger] spec_segment_bytes(s, seg)[k] == 0u8,
{
    let b = spec_segment_bytes(s, seg);
    assert forall|k: int| 0 <= k < seg.file_size implies #[trigger] b[k] == s[seg.offset + k] by {}
    assert forall|k: int| seg.file_size <= k < b.len() implies #[trigger] b[k] == 0u8 by {}
}

} // verus!
