//! Loading the kernel ELF image: parsing, the address range of the loadable
//! segments, the number of pages to reserve, and the contents of each segment
//! once in memory.
use vstd::prelude::*;

verus! {

/// Program header type of a loadable segment.
pub const PT_LOAD: u32 = 1;

/// Size of the pages reserved for the kernel.
pub const PAGE_SIZE: usize = 0x1000;

/// A program header of the kernel image.
#[derive(Debug, Copy, Clone, PartialEq, Eq, Structural)]
pub struct ProgramHeader {
    pub p_type: u32,
    pub p_flags: u32,
    pub p_offset: u64,
    pub p_vaddr: u64,
    pub p_paddr: u64,
    pub p_filesz: u64,
    pub p_memsz: u64,
    pub p_align: u64,
}

/// What the loader keeps of a parsed kernel image.
#[derive(Debug)]
pub struct KernelImage {
    /// Address of the kernel's entry point.
    pub entry: u64,
    pub program_headers: Vec<ProgramHeader>,
}

/// Where the kernel goes in memory.
#[derive(Debug, Copy, Clone, PartialEq, Eq, Structural)]
pub struct KernelLoadPlan {
    /// Lowest virtual address of a loadable segment.
    pub first_address: usize,
    /// Highest end address of a loadable segment.
    pub last_address: usize,
    /// Whole pages between the two addresses.
    pub num_pages: usize,
}

#[derive(Debug, Copy, Clone, PartialEq, Eq, Structural)]
pub enum KernelLoadError {
    /// The image is not an ELF file that can be parsed.
    Parse,
    /// The end address of a loadable segment does not fit in 64 bits.
    AddressOverflow,
    /// No loadable segment: the lowest address is above the highest end.
    EmptyLoadRange,
}

#[verifier::external_type_specification]
#[verifier::external_body]
pub struct ExGoblinError(goblin::error::Error);

/// What `goblin::elf::Elf::parse` makes of `bytes`: the entry point and the
/// program headers, or `None` where it returns an error.
pub uninterp spec fn goblin_elf_parse(bytes: Seq<u8>) -> Option<(u64, Seq<ProgramHeader>)>;

/// Parses `bytes` with `goblin::elf::Elf::parse` and keeps the entry point and
/// the program headers, field for field. The contract claims only that the
/// result is a function of the bytes (named `goblin_elf_parse`).
#[verifier::external_body]
fn goblin_parse(bytes: &[u8]) -> (r: Result<KernelImage, goblin::error::Error>)
    ensures
        match r {
            Ok(image) => goblin_elf_parse(bytes@) == Some((image.entry, image.program_headers@)),
            Err(_) => goblin_elf_parse(bytes@) is None,
        },
{
    let elf = goblin::elf::Elf::parse(bytes)?;
    let program_headers = elf.program_headers.iter().map(|ph| ProgramHeader {
        p_type: ph.p_type, p_flags: ph.p_flags, p_offset: ph.p_offset, p_vaddr: ph.p_vaddr,
        p_paddr: ph.p_paddr, p_filesz: ph.p_filesz, p_memsz: ph.p_memsz, p_align: ph.p_align,
    }).collect();
    Ok(KernelImage { entry: elf.entry, program_headers })
}

/// Parses the kernel file.
pub fn parse_kernel(kernel_buffer: &[u8]) -> (r: Result<KernelImage, KernelLoadError>)
    ensures
        match r {
            Ok(image) => goblin_elf_parse(kernel_buffer@) == Some(
                (image.entry, image.program_headers@),
            ),
            Err(e) => e == KernelLoadError::Parse && goblin_elf_parse(kernel_buffer@) is None,
        },
{
    match goblin_parse(kernel_buffer) {
        Ok(image) => Ok(image),
        Err(_) => Err(KernelLoadError::Parse),
    }
}

pub open spec fn is_load(h: ProgramHeader) -> bool {
    h.p_type == PT_LOAD
}

/// The end address of a segment.
pub open spec fn segment_end(h: ProgramHeader) -> int {
    h.p_vaddr + h.p_memsz
}

/// The end address of every loadable segment fits in 64 bits.
pub open spec fn load_ends_fit(headers: Seq<ProgramHeader>) -> bool {
    forall|i: int| 0 <= i < headers.len() && is_load(#[trigger] headers[i]) ==> segment_end(headers[i]) <= u64::MAX
}

pub open spec fn has_load(headers: Seq<ProgramHeader>) -> bool {
    exists|i: int| 0 <= i < headers.len() && is_load(#[trigger] headers[i])
}

/// `first` is the lowest start address of a loadable segment of `headers`
/// (`usize::MAX` when there is none).
pub open spec fn is_lowest_start(headers: Seq<ProgramHeader>, first: usize) -> bool {
    &&& forall|i: int| 0 <= i < headers.len() && is_load(#[trigger] headers[i]) ==> first <= headers[i].p_vaddr as usize
    &&& if has_load(headers) {
        exists|i: int| 0 <= i < headers.len() && is_load(#[trigger] headers[i]) && first == headers[i].p_vaddr as usize
    } else {
        first == usize::MAX
    }
}

/// `last` is the highest end address of a loadable segment of `headers`
/// (0 when there is none).
pub open spec fn is_highest_end(headers: Seq<ProgramHeader>, last: usize) -> bool {
    &&& forall|i: int| 0 <= i < headers.len() && is_load(#[trigger] headers[i]) ==> segment_end(headers[i]) as usize <= last
    &&& if has_load(headers) {
        exists|i: int| 0 <= i < headers.len() && is_load(#[trigger] headers[i]) && last == segment_end(headers[i]) as usize
    } else {
        last == 0
    }
}

/// The lowest start and the highest end address of the loadable segments.
/// The two arguments only give the result its type: they are overwritten.
pub fn calc_load_address_range(elf: &KernelImage, first: usize, last: usize) -> (range: (usize, usize))
    requires
        load_ends_fit(elf.program_headers@),
    ensures
        is_lowest_start(elf.program_headers@, range.0),
        is_highest_end(elf.program_headers@, range.1),
{
    let headers = &elf.program_headers;
    let mut first: usize = usize::MAX;
    let mut last: usize = 0;
    let mut i: usize = 0;
    while i < headers.len()
        invariant
            i <= headers@.len(),
            load_ends_fit(headers@),
            is_lowest_start(headers@.take(i as int), first),
            is_highest_end(headers@.take(i as int), last),
        decreases headers@.len() - i,
    {
        let ph = headers[i];
        let ghost prefix = headers@.take(i as int);
        let ghost next = headers@.take(i + 1);
        assert(next =~= prefix.push(ph));
        assert(next[i as int] == ph);
        if ph.p_type == PT_LOAD {
            assert(segment_end(headers@[i as int]) <= u64::MAX);
            let start = ph.p_vaddr as usize;
            let end = (ph.p_vaddr + ph.p_memsz) as usize;
            let old_first = first;
            let old_last = last;
            if start < first {
                first = start;
            }
            if end > last {
                last = end;
            }
            proof {
                assert(has_load(next)) by {
                    assert(is_load(next[i as int]));
                }
                assert forall|j: int| 0 <= j < next.len() && is_load(#[trigger] next[j]) implies first <= next[j].p_vaddr as usize
                    && segment_end(next[j]) as usize <= last by {
                    if j < i {
                        assert(next[j] == prefix[j]);
                    }
                }
                if has_load(prefix) && first == old_first {
                    let j = choose|j: int| 0 <= j < prefix.len() && is_load(#[trigger] prefix[j]) && old_first == prefix[j].p_vaddr as usize;
                    assert(next[j] == prefix[j]);
                } else {
                    assert(is_load(next[i as int]) && first == next[i as int].p_vaddr as usize);
                }
                if has_load(prefix) && last == old_last {
                    let j = choose|j: int| 0 <= j < prefix.len() && is_load(#[trigger] prefix[j]) && old_last == segment_end(prefix[j]) as usize;
                    assert(next[j] == prefix[j]);
                } else {
                    assert(is_load(next[i as int]) && last == segment_end(next[i as int]) as usize);
                }
            }
        } else {
            proof {
                assert forall|j: int| 0 <= j < next.len() && is_load(#[trigger] next[j]) implies first <= next[j].p_vaddr as usize
                    && segment_end(next[j]) as usize <= last by {
                    assert(j < i);
                    assert(next[j] == prefix[j]);
                }
                if has_load(next) {
                    let j = choose|j: int| 0 <= j < next.len() && is_load(#[trigger] next[j]);
                    assert(j != i);
                    assert(prefix[j] == next[j]);
                    assert(has_load(prefix));
                    let k = choose|k: int| 0 <= k < prefix.len() && is_load(#[trigger] prefix[k]) && first == prefix[k].p_vaddr as usize;
                    assert(next[k] == prefix[k]);
                    let l = choose|l: int| 0 <= l < prefix.len() && is_load(#[trigger] prefix[l]) && last == segment_end(prefix[l]) as usize;
                    assert(next[l] == prefix[l]);
                } else {
                    if has_load(prefix) {
                        let j = choose|j: int| 0 <= j < prefix.len() && is_load(#[trigger] prefix[j]);
                        assert(next[j] == prefix[j]);
                    }
                }
            }
        }
        i = i + 1;
    }
    assert(headers@.take(i as int) =~= headers@);
    (first, last)
}

/// Where the kernel goes: fails where an end address does not fit in 64 bits
/// or where the range is empty (no loadable segment).
pub fn plan_kernel_load(image: &KernelImage) -> (r: Result<KernelLoadPlan, KernelLoadError>)
    ensures
        !load_ends_fit(image.program_headers@) ==> r == Err::<KernelLoadPlan, KernelLoadError>(KernelLoadError::AddressOverflow),
        load_ends_fit(image.program_headers@) ==> match r {
            Ok(plan) => {
                &&& is_lowest_start(image.program_headers@, plan.first_address)
                &&& is_highest_end(image.program_headers@, plan.last_address)
                &&& plan.first_address <= plan.last_address
                &&& plan.num_pages == (plan.last_address - plan.first_address) / (PAGE_SIZE as int)
            },
            Err(e) => e == KernelLoadError::EmptyLoadRange && (forall|first: usize, last: usize|
                is_lowest_start(image.program_headers@, first) && is_highest_end(image.program_headers@, last) ==> first > last),
        },
{
    let headers = &image.program_headers;
    let mut i: usize = 0;
    while i < headers.len()
        invariant
            i <= headers@.len(),
            headers@ == image.program_headers@,
            forall|j: int| 0 <= j < i && is_load(#[trigger] headers@[j]) ==> segment_end(headers@[j]) <= u64::MAX,
        decreases headers@.len() - i,
    {
        let ph = headers[i];
        if ph.p_type == PT_LOAD && ph.p_memsz > u64::MAX - ph.p_vaddr {
            assert(is_load(headers@[i as int]) && segment_end(headers@[i as int]) > u64::MAX);
            return Err(KernelLoadError::AddressOverflow);
        }
        i = i + 1;
    }
    let (first, last) = calc_load_address_range(image, 0, 0);
    if last < first {
        proof {
            lemma_range_unique(image.program_headers@, first, last);
        }
        return Err(KernelLoadError::EmptyLoadRange);
    }
    let num_pages = (last - first) / PAGE_SIZE;
    Ok(KernelLoadPlan { first_address: first, last_address: last, num_pages })
}

/// The lowest start and the highest end are unique.
proof fn lemma_range_unique(headers: Seq<ProgramHeader>, first: usize, last: usize)
    requires
        is_lowest_start(headers, first),
        is_highest_end(headers, last),
    ensures
        forall|f: usize, l: usize| is_lowest_start(headers, f) && is_highest_end(headers, l) ==> f == first && l == last,
{
    assert forall|f: usize, l: usize| is_lowest_start(headers, f) && is_highest_end(headers, l) implies f == first && l == last by {
        if has_load(headers) {
            let a = choose|i: int| 0 <= i < headers.len() && is_load(#[trigger] headers[i]) && f == headers[i].p_vaddr as usize;
            let b = choose|i: int| 0 <= i < headers.len() && is_load(#[trigger] headers[i]) && first == headers[i].p_vaddr as usize;
            let c = choose|i: int| 0 <= i < headers.len() && is_load(#[trigger] headers[i]) && l == segment_end(headers[i]) as usize;
            let d = choose|i: int| 0 <= i < headers.len() && is_load(#[trigger] headers[i]) && last == segment_end(headers[i]) as usize;
        }
    }
}

/// The contents of a loaded segment: its file bytes, then zeros up to its
/// size in memory.
pub open spec fn segment_image(kernel_buffer: Seq<u8>, ph: ProgramHeader) -> Seq<u8> {
    kernel_buffer.subrange(ph.p_offset as usize as int, ph.p_offset as usize + ph.p_filesz as usize)
        + Seq::new((ph.p_memsz as usize - ph.p_filesz as usize) as nat, |i: int| 0u8)
}

/// Segment `ph` can be copied out of `kernel_buffer`: it has no more bytes in
/// the file than in memory, and its file bytes lie within the buffer.
pub open spec fn segment_fits_spec(kernel_buffer: Seq<u8>, ph: ProgramHeader) -> bool {
    &&& ph.p_filesz as usize <= ph.p_memsz as usize
    &&& ph.p_offset as usize + ph.p_filesz as usize <= kernel_buffer.len()
}

/// Whether segment `ph` can be copied out of `kernel_buffer`.
pub fn segment_fits(kernel_buffer: &[u8], ph: &ProgramHeader) -> (fits: bool)
    ensures
        fits == segment_fits_spec(kernel_buffer@, *ph),
{
    let p_offset = ph.p_offset as usize;
    let p_filesz = ph.p_filesz as usize;
    let p_memsz = ph.p_memsz as usize;
    let len = kernel_buffer.len();
    p_filesz <= p_memsz && p_offset <= usize::MAX - p_filesz && p_offset + p_filesz <= len
}

/// Fills `dest`, the memory of segment `ph`, with the segment's bytes from the
/// kernel file and zeros after them.
pub fn copy_load_segment(dest: &mut [u8], kernel_buffer: &[u8], ph: &ProgramHeader)
    requires
        old(dest)@.len() == ph.p_memsz as usize,
        segment_fits_spec(kernel_buffer@, *ph),
    ensures
        final(dest)@ == segment_image(kernel_buffer@, *ph),
{
    let p_offset = ph.p_offset as usize;
    let p_filesz = ph.p_filesz as usize;
    let p_memsz = ph.p_memsz as usize;
    proof {
        vstd::slice::axiom_spec_len(kernel_buffer);
    }
    let ghost expected = segment_image(kernel_buffer@, *ph);
    let mut i: usize = 0;
    while i < p_filesz
        invariant
            i <= p_filesz,
            p_filesz <= p_memsz,
            dest@.len() == p_memsz,
            p_offset + p_filesz <= kernel_buffer@.len(),
            p_offset + p_filesz <= usize::MAX,
            p_offset == ph.p_offset as usize,
            p_filesz == ph.p_filesz as usize,
            p_memsz == ph.p_memsz as usize,
            expected == segment_image(kernel_buffer@, *ph),
            forall|j: int| 0 <= j < i ==> dest@[j] == expected[j],
        decreases p_filesz - i,
    {
        dest[i] = kernel_buffer[p_offset + i];
        i = i + 1;
    }
    while i < p_memsz
        invariant
            p_filesz <= i <= p_memsz,
            dest@.len() == p_memsz,
            p_offset + p_filesz <= kernel_buffer@.len(),
            p_offset == ph.p_offset as usize,
            p_filesz == ph.p_filesz as usize,
            p_memsz == ph.p_memsz as usize,
            expected == segment_image(kernel_buffer@, *ph),
            forall|j: int| 0 <= j < i ==> dest@[j] == expected[j],
        decreases p_memsz - i,
    {
        dest[i] = 0;
        i = i + 1;
    }
    assert(dest@ =~= expected);
}

/// The loadable segments, in the order of the program headers.
pub open spec fn load_filter() -> spec_fn(ProgramHeader) -> bool {
    |h: ProgramHeader| is_load(h)
}

/// A program header is listed among the loadable segments exactly when its
/// type is 1 (`PT_LOAD`); every other type (such as 3, 7 or 0x6474e551) is
/// left out.
pub proof fn lemma_load_filter(h: ProgramHeader)
    ensures
        load_filter()(h) == (h.p_type == 1u32),
{
}

/// The loadable segments are the headers of type 1, in their order: every
/// listed header has type 1, and a header of type 1 is listed.
pub proof fn lemma_load_segments_members(headers: Seq<ProgramHeader>)
    ensures
        forall|i: int| 0 <= i < headers.filter(load_filter()).len() ==> (#[trigger] headers.filter(
            load_filter(),
        )[i]).p_type == 1u32,
        forall|i: int| 0 <= i < headers.len() && (#[trigger] headers[i]).p_type == 1u32 ==> headers.filter(
            load_filter(),
        ).contains(headers[i]),
        headers.filter(load_filter()).len() <= headers.len(),
{
    broadcast use vstd::seq_lib::group_filter_ensures;
    assert forall|i: int| 0 <= i < headers.filter(load_filter()).len() implies (#[trigger] headers.filter(
        load_filter(),
    )[i]).p_type == 1u32 by {
        assert(load_filter()(headers.filter(load_filter())[i]));
    }
    assert forall|i: int| 0 <= i < headers.len() && (#[trigger] headers[i]).p_type == 1u32 implies headers.filter(
        load_filter(),
    ).contains(headers[i]) by {
        assert(load_filter()(headers[i]));
    }
}

/// The program headers of the loadable segments.
pub fn load_segments(image: &KernelImage) -> (segments: Vec<ProgramHeader>)
    ensures
        segments@ == image.program_headers@.filter(load_filter()),
{
    let headers = &image.program_headers;
    let mut segments: Vec<ProgramHeader> = Vec::new();
    let mut i: usize = 0;
    while i < headers.len()
        invariant
            i <= headers@.len(),
            segments@ == headers@.take(i as int).filter(load_filter()),
        decreases headers@.len() - i,
    {
        let ph = headers[i];
        proof {
            let next = headers@.take(i + 1);
            assert(next.drop_last() =~= headers@.take(i as int));
            assert(next.last() == ph);
            reveal_with_fuel(Seq::filter, 1);
        }
        if ph.p_type == PT_LOAD {
            segments.push(ph);
        }
        i = i + 1;
    }
    assert(headers@.take(i as int) =~= headers@);
    segments
}

} // verus!
