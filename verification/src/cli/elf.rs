//! ELF firmware: conversion to a raw image, and static checks on its symbols.
use object::read::elf::{ElfFile32, ProgramHeader};
use object::{Endianness, Object, ObjectSymbol};
use vstd::prelude::*;

verus! {

/// The error of the `object` crate, carried as it is.
#[verifier::external_type_specification]
#[verifier::external_body]
pub struct ExObjectError(object::Error);

/// Program header type of a loadable segment.
pub const PT_LOAD: u32 = 1;

/// What an erased flash cell reads as: the padding between segments.
pub const ERASED: u8 = 0xFF;

/// One program header of an ELF file.
#[derive(Debug)]
pub struct Segment {
    /// Header type.
    pub kind: u32,
    /// Physical (load) address.
    pub paddr: u32,
    /// Bytes in the file.
    pub filesz: u32,
    /// The segment's bytes, unless the file is cut short.
    pub data: Option<Vec<u8>>,
}

impl Segment {
    /// The header's fields.
    pub open spec fn view(&self) -> (u32, u32, u32, Option<Seq<u8>>) {
        (
            self.kind,
            self.paddr,
            self.filesz,
            match self.data {
                Some(d) => Some(d@),
                None => None,
            },
        )
    }
}

/// One entry of an ELF symbol table.
#[derive(Debug)]
pub struct Symbol {
    /// The name, if it is readable text.
    pub name: Option<String>,
    pub address: u64,
}

impl Symbol {
    /// The entry's fields.
    pub open spec fn view(&self) -> (Option<Seq<char>>, u64) {
        (
            match self.name {
                Some(n) => Some(n@),
                None => None,
            },
            self.address,
        )
    }
}

/// The program headers of an ELF file, as (type, physical address, size in the
/// file, bytes); `None` if the file is no well-formed 32-bit ELF.
pub uninterp spec fn elf_headers(file: Seq<u8>) -> Option<Seq<(u32, u32, u32, Option<Seq<u8>>)>>;

/// The symbol table of an ELF file, as (name, address); `None` if the file is no
/// well-formed 32-bit ELF.
pub uninterp spec fn elf_symbols(file: Seq<u8>) -> Option<Seq<(Option<Seq<char>>, u64)>>;

/// Calls `object`'s `ElfFile32::parse`, then reads type, `p_paddr`, `p_filesz`
/// and `data` of each header of `elf_program_headers`. Claimed: the outcome
/// depends on the file's bytes alone, and a header's data, where present, has
/// the size that the header gives.
#[verifier::external_body]
fn program_headers(file: &[u8]) -> (r: Result<Vec<Segment>, object::Error>)
    ensures
        r is Err ==> elf_headers(file@) is None,
        r matches Ok(v) ==> elf_headers(file@) == Some(v@.map_values(|s: Segment| s@)),
        r matches Ok(v) ==> forall|i: int|
            0 <= i < v@.len() ==> (#[trigger] v@[i].data matches Some(d) ==> d@.len()
                == v@[i].filesz),
{
    let elf: ElfFile32<Endianness> = ElfFile32::parse(file)?;
    let endian = elf.endian();
    Ok(elf.elf_program_headers().iter().map(|ph| Segment {
        kind: ph.p_type(endian).0,
        paddr: ph.p_paddr(endian),
        filesz: ph.p_filesz(endian),
        data: ph.data(endian, file).ok().map(|d| d.to_vec()),
    }).collect())
}

/// Calls `object`'s `ElfFile32::parse`, then reads `name` and `address` of each
/// symbol of `symbols`. Claimed: the outcome depends on the file's bytes alone.
#[verifier::external_body]
pub(crate) fn symbol_entries(file: &[u8]) -> (r: Result<Vec<Symbol>, object::Error>)
    ensures
        r is Err ==> elf_symbols(file@) is None,
        r matches Ok(v) ==> elf_symbols(file@) == Some(v@.map_values(|s: Symbol| s@)),
{
    let elf: ElfFile32<Endianness> = ElfFile32::parse(file)?;
    Ok(elf.symbols().map(|sym| Symbol {
        name: sym.name().ok().map(|n| n.to_string()),
        address: sym.address(),
    }).collect())
}

/// Why an ELF file cannot be turned into an image.
#[derive(Debug, Clone, Copy, PartialEq, Eq, Structural)]
pub enum ElfError {
    /// No well-formed 32-bit ELF.
    Parse,
    /// Nothing to load.
    NoLoadableSegments,
    /// A segment's bytes are not in the file.
    SegmentData,
    /// A segment ends beyond the 32-bit address space.
    AddressOverflow,
}

impl ElfError {
    /// The message for the user.
    pub open spec fn text(self) -> Seq<char> {
        match self {
            ElfError::Parse => "parse ELF header"@,
            ElfError::NoLoadableSegments => "ELF has no loadable segments"@,
            ElfError::SegmentData => "read PT_LOAD segment data"@,
            ElfError::AddressOverflow => "PT_LOAD segment ends beyond the address space"@,
        }
    }

    /// The message for the user.
    pub fn message(self) -> (s: &'static str)
        ensures
            s@ == self.text(),
    {
        match self {
            ElfError::Parse => "parse ELF header",
            ElfError::NoLoadableSegments => "ELF has no loadable segments",
            ElfError::SegmentData => "read PT_LOAD segment data",
            ElfError::AddressOverflow => "PT_LOAD segment ends beyond the address space",
        }
    }
}

// ---------------------------------------------------------------------------
// Image layout
// ---------------------------------------------------------------------------

/// A header's fields, as [`Segment::view`] gives them.
pub type HeaderView = (u32, u32, u32, Option<Seq<u8>>);

/// A header with bytes to load.
pub open spec fn header_loads(h: HeaderView) -> bool {
    h.0 == PT_LOAD && h.2 > 0
}

/// `base` is the lowest load address.
pub open spec fn is_base(hs: Seq<HeaderView>, base: int) -> bool {
    &&& exists|i: int| 0 <= i < hs.len() && header_loads(hs[i]) && #[trigger] hs[i].1 == base
    &&& forall|i: int| 0 <= i < hs.len() && #[trigger] header_loads(hs[i]) ==> base <= hs[i].1
}

/// `end` is the highest address behind a loaded segment.
pub open spec fn is_end(hs: Seq<HeaderView>, end: int) -> bool {
    &&& exists|i: int|
        0 <= i < hs.len() && #[trigger] header_loads(hs[i]) && hs[i].1 + hs[i].2 == end
    &&& forall|i: int|
        0 <= i < hs.len() && #[trigger] header_loads(hs[i]) ==> hs[i].1 + hs[i].2 <= end
}

/// The byte that the image holds for address `addr`: that of the last loaded
/// segment over it, or padding.
pub open spec fn image_byte(hs: Seq<HeaderView>, addr: int) -> u8
    decreases hs.len(),
{
    if hs.len() == 0 {
        ERASED
    } else {
        let h = hs.last();
        if header_loads(h) && h.1 <= addr < h.1 + h.2 {
            h.3->0[addr - h.1]
        } else {
            image_byte(hs.drop_last(), addr)
        }
    }
}

/// Some header has bytes to load.
pub open spec fn any_loads(hs: Seq<HeaderView>) -> bool {
    exists|i: int| 0 <= i < hs.len() && #[trigger] header_loads(hs[i])
}

/// Every loaded segment ends inside the 32-bit address space.
pub open spec fn ends_fit(hs: Seq<HeaderView>) -> bool {
    forall|i: int|
        0 <= i < hs.len() && #[trigger] header_loads(hs[i]) ==> hs[i].1 + hs[i].2 <= u32::MAX
}

/// Every loaded segment has its bytes.
pub open spec fn data_present(hs: Seq<HeaderView>) -> bool {
    forall|i: int| 0 <= i < hs.len() && #[trigger] header_loads(hs[i]) ==> hs[i].3 is Some
}

/// Every segment with bytes has as many as its header says.
pub open spec fn sizes_agree(hs: Seq<HeaderView>) -> bool {
    forall|i: int|
        0 <= i < hs.len() ==> ((#[trigger] hs[i]).3 matches Some(d) ==> d.len() == hs[i].2)
}

/// The headers of a list of segments.
pub open spec fn views(segments: Seq<Segment>) -> Seq<HeaderView> {
    segments.map_values(|s: Segment| s@)
}

/// `image`, from `base` on, is what the headers say.
pub open spec fn is_image(hs: Seq<HeaderView>, base: int, image: Seq<u8>) -> bool {
    &&& is_base(hs, base)
    &&& is_end(hs, base + image.len())
    &&& forall|i: int| 0 <= i < image.len() ==> #[trigger] image[i] == image_byte(hs, base + i)
}

/// Places the loadable segments at their physical addresses in one contiguous
/// image from the lowest address on, gaps padded with `0xFF`.
pub fn place_segments(segments: &Vec<Segment>) -> (r: Result<(u32, Vec<u8>), ElfError>)
    requires
        sizes_agree(views(segments@)),
        ends_fit(views(segments@)),
    ensures
        r matches Ok(x) ==> any_loads(views(segments@)) && data_present(views(segments@))
            && is_image(views(segments@), x.0 as int, x.1@),
        r matches Err(e) ==> {
            &&& e == ElfError::NoLoadableSegments <==> !any_loads(views(segments@))
            &&& e == ElfError::SegmentData <==> any_loads(views(segments@)) && !data_present(
                views(segments@),
            )
            &&& e == ElfError::NoLoadableSegments || e == ElfError::SegmentData
        },
{
    let ghost hs = views(segments@);
    // Bounds of the image.
    let mut found = false;
    let mut base: u32 = 0;
    let mut end: u32 = 0;
    let mut i: usize = 0;
    while i < segments.len()
        invariant
            hs == views(segments@),
            ends_fit(hs),
            i <= segments@.len(),
            found <==> exists|j: int| 0 <= j < i && #[trigger] header_loads(hs[j]),
            found ==> exists|j: int| 0 <= j < i && header_loads(hs[j]) && #[trigger] hs[j].1 == base,
            found ==> exists|j: int|
                0 <= j < i && #[trigger] header_loads(hs[j]) && hs[j].1 + hs[j].2 == end,
            forall|j: int| 0 <= j < i && #[trigger] header_loads(hs[j]) ==> base <= hs[j].1,
            forall|j: int| 0 <= j < i && #[trigger] header_loads(hs[j]) ==> hs[j].1 + hs[j].2 <= end,
        decreases segments@.len() - i,
    {
        let s = &segments[i];
        assert(hs[i as int] == s@);
        if s.kind == PT_LOAD && s.filesz > 0 {
            assert(header_loads(hs[i as int]));
            let stop: u32 = s.paddr + s.filesz;
            if !found || s.paddr < base {
                base = s.paddr;
                assert(hs[i as int].1 == base);
            }
            if !found || stop > end {
                end = stop;
            }
            found = true;
        }
        i = i + 1;
    }
    if !found {
        return Err(ElfError::NoLoadableSegments);
    }
    assert(any_loads(hs));
    assert(is_base(hs, base as int));
    assert(is_end(hs, end as int));
    assert(base <= end) by {
        let j = choose|j: int| 0 <= j < hs.len() && #[trigger] header_loads(hs[j]) && hs[j].1
            + hs[j].2 == end;
    }
    let size: usize = (end - base) as usize;
    let mut out: Vec<u8> = Vec::new();
    while out.len() < size
        invariant
            out@.len() <= size,
            forall|k: int| 0 <= k < out@.len() ==> out@[k] == ERASED,
        decreases size - out@.len(),
    {
        out.push(ERASED);
    }
    let mut n: usize = 0;
    assert(hs.take(0) =~= Seq::empty());
    while n < segments.len()
        invariant
            hs == views(segments@),
            sizes_agree(hs),
            ends_fit(hs),
            any_loads(hs),
            is_base(hs, base as int),
            is_end(hs, end as int),
            base <= end,
            size == end - base,
            out@.len() == size,
            n <= segments@.len(),
            forall|j: int| 0 <= j < n && #[trigger] header_loads(hs[j]) ==> hs[j].3 is Some,
            forall|k: int|
                0 <= k < size ==> #[trigger] out@[k] == image_byte(hs.take(n as int), base + k),
        decreases segments@.len() - n,
    {
        let s = &segments[n];
        assert(hs[n as int] == s@);
        assert(hs.take(n + 1).drop_last() =~= hs.take(n as int));
        assert(hs.take(n + 1).last() == hs[n as int]);
        if s.kind == PT_LOAD && s.filesz > 0 {
            assert(header_loads(hs[n as int]));
            match &s.data {
                None => {
                    return Err(ElfError::SegmentData);
                },
                Some(d) => {
                    let offset: usize = (s.paddr - base) as usize;
                    let ghost before = out@;
                    let mut k: usize = 0;
                    assert(d@.len() == s.filesz) by {
                        assert(hs[n as int].3 == Some(d@));
                    }
                    while k < d.len()
                        invariant
                            k <= d@.len(),
                            offset + d@.len() <= size,
                            out@.len() == size,
                            before.len() == size,
                            forall|j: int|
                                0 <= j < size ==> #[trigger] out@[j] == if offset <= j < offset + k {
                                    d@[j - offset]
                                } else {
                                    before[j]
                                },
                        decreases d@.len() - k,
                    {
                        out.set(offset + k, d[k]);
                        k = k + 1;
                    }
                },
            }
        }
        n = n + 1;
    }
    assert(hs.take(n as int) =~= hs);
    assert(data_present(hs));
    Ok((base, out))
}

/// Whether every loaded segment ends inside the address space.
fn all_ends_fit(segments: &Vec<Segment>) -> (b: bool)
    ensures
        b == ends_fit(views(segments@)),
{
    let ghost hs = views(segments@);
    let mut i: usize = 0;
    while i < segments.len()
        invariant
            hs == views(segments@),
            i <= segments@.len(),
            forall|j: int|
                0 <= j < i && #[trigger] header_loads(hs[j]) ==> hs[j].1 + hs[j].2 <= u32::MAX,
        decreases segments@.len() - i,
    {
        let s = &segments[i];
        assert(hs[i as int] == s@);
        if s.kind == PT_LOAD && s.filesz > 0 && s.filesz > u32::MAX - s.paddr {
            assert(header_loads(hs[i as int]));
            return false;
        }
        i = i + 1;
    }
    true
}

/// Why a file cannot be turned into an image, if it cannot.
pub open spec fn image_refusal(file: Seq<u8>) -> Option<ElfError> {
    match elf_headers(file) {
        None => Some(ElfError::Parse),
        Some(hs) => if !ends_fit(hs) {
            Some(ElfError::AddressOverflow)
        } else if !any_loads(hs) {
            Some(ElfError::NoLoadableSegments)
        } else if !data_present(hs) {
            Some(ElfError::SegmentData)
        } else {
            None
        },
    }
}

/// The lowest load address.
pub open spec fn base_of(hs: Seq<HeaderView>) -> int {
    choose|base: int| is_base(hs, base)
}

/// There is only one lowest load address.
pub proof fn lemma_base_of(hs: Seq<HeaderView>, base: int)
    requires
        is_base(hs, base),
    ensures
        base_of(hs) == base,
{
    let b = base_of(hs);
    assert(is_base(hs, b));
    let i = choose|i: int| 0 <= i < hs.len() && header_loads(hs[i]) && #[trigger] hs[i].1 == base;
    let j = choose|j: int| 0 <= j < hs.len() && header_loads(hs[j]) && #[trigger] hs[j].1 == b;
    assert(header_loads(hs[i]) && header_loads(hs[j]));
}

/// Turns an ELF file into its base address and raw image.
pub fn elf_to_bin(file: &[u8]) -> (r: Result<(u32, Vec<u8>), ElfError>)
    ensures
        r is Ok <==> image_refusal(file@) is None,
        r matches Err(e) ==> image_refusal(file@) == Some(e),
        r matches Ok(x) ==> is_image(elf_headers(file@)->0, x.0 as int, x.1@),
{
    match program_headers(file) {
        Err(_) => Err(ElfError::Parse),
        Ok(segments) => {
            assert(sizes_agree(views(segments@))) by {
                assert forall|i: int| 0 <= i < segments@.len() implies (#[trigger] views(
                    segments@,
                )[i].3 matches Some(d) ==> d.len() == views(segments@)[i].2) by {
                    assert(segments@[i].data matches Some(d) ==> d@.len() == segments@[i].filesz);
                }
            }
            if all_ends_fit(&segments) {
                place_segments(&segments)
            } else {
                Err(ElfError::AddressOverflow)
            }
        },
    }
}

/// Outside every loaded segment the image is erased flash; writing it there is a
/// no-op.
pub proof fn law_gaps_are_erased(hs: Seq<HeaderView>, addr: int)
    requires
        forall|i: int|
            0 <= i < hs.len() && #[trigger] header_loads(hs[i]) ==> !(hs[i].1 <= addr < hs[i].1
                + hs[i].2),
    ensures
        image_byte(hs, addr) == ERASED,
    decreases hs.len(),
{
    if hs.len() > 0 {
        assert forall|i: int|
            0 <= i < hs.drop_last().len() && #[trigger] header_loads(
                hs.drop_last()[i],
            ) implies !(hs.drop_last()[i].1 <= addr < hs.drop_last()[i].1 + hs.drop_last()[i].2) by {
            assert(header_loads(hs[i]));
        }
        law_gaps_are_erased(hs.drop_last(), addr);
        if header_loads(hs.last()) {
            assert(header_loads(hs[hs.len() - 1]));
        }
    }
}

/// A segment that no later one overlaps is in the image byte for byte.
pub proof fn law_segments_are_carried_whole(hs: Seq<HeaderView>, k: int, addr: int)
    requires
        0 <= k < hs.len(),
        header_loads(hs[k]),
        hs[k].1 <= addr < hs[k].1 + hs[k].2,
        forall|i: int|
            k < i < hs.len() && #[trigger] header_loads(hs[i]) ==> !(hs[i].1 <= addr < hs[i].1
                + hs[i].2),
    ensures
        image_byte(hs, addr) == hs[k].3->0[addr - hs[k].1],
    decreases hs.len(),
{
    if k < hs.len() - 1 {
        let rest = hs.drop_last();
        assert forall|i: int| k < i < rest.len() && #[trigger] header_loads(rest[i]) implies !(
        rest[i].1 <= addr < rest[i].1 + rest[i].2) by {
            assert(header_loads(hs[i]));
        }
        law_segments_are_carried_whole(rest, k, addr);
        if header_loads(hs.last()) {
            assert(header_loads(hs[hs.len() - 1]));
        }
    }
}

/// A byte of the image lies under some segment of its own, and carries that
/// segment's byte; where none lies, it is erased.
proof fn lemma_image_byte(hs: Seq<HeaderView>, addr: int) -> (i: int)
    ensures
        i == -1 || 0 <= i < hs.len(),
        i >= 0 ==> hs[i].0 == 1 && hs[i].1 <= addr < hs[i].1 + hs[i].2 && image_byte(hs, addr)
            == hs[i].3->0[addr - hs[i].1],
        i == -1 ==> image_byte(hs, addr) == 0xFF,
        forall|j: int|
            i < j < hs.len() ==> !((#[trigger] hs[j]).0 == 1 && hs[j].1 <= addr < hs[j].1
                + hs[j].2),
    decreases hs.len(),
{
    if hs.len() == 0 {
        -1
    } else {
        let h = hs.last();
        if h.0 == 1 && h.1 <= addr < h.1 + h.2 {
            hs.len() - 1
        } else {
            let i = lemma_image_byte(hs.drop_last(), addr);
            assert forall|j: int| i < j < hs.len() implies !((#[trigger] hs[j]).0 == 1 && hs[j].1
                <= addr < hs[j].1 + hs[j].2) by {
                if j < hs.len() - 1 {
                    assert(hs.drop_last()[j] == hs[j]);
                }
            }
            i
        }
    }
}

/// When an image exists, in the fields of the headers alone: some header has type
/// 1 and bytes in the file, each such header has its bytes, and none of them ends
/// beyond the 32-bit address space.
pub proof fn law_every_loadable_header_counts(hs: Seq<HeaderView>)
    ensures
        any_loads(hs) <==> exists|i: int|
            0 <= i < hs.len() && (#[trigger] hs[i]).0 == 1 && hs[i].2 > 0,
        data_present(hs) <==> forall|i: int|
            0 <= i < hs.len() && (#[trigger] hs[i]).0 == 1 && hs[i].2 > 0 ==> hs[i].3 is Some,
        ends_fit(hs) <==> forall|i: int|
            0 <= i < hs.len() && (#[trigger] hs[i]).0 == 1 && hs[i].2 > 0 ==> hs[i].1 + hs[i].2
                <= 0xFFFF_FFFF,
{
    if exists|i: int| 0 <= i < hs.len() && (#[trigger] hs[i]).0 == 1 && hs[i].2 > 0 {
        let i = choose|i: int| 0 <= i < hs.len() && (#[trigger] hs[i]).0 == 1 && hs[i].2 > 0;
        assert(header_loads(hs[i]));
    }
    if data_present(hs) {
        assert forall|i: int|
            0 <= i < hs.len() && (#[trigger] hs[i]).0 == 1 && hs[i].2 > 0 implies hs[i].3
            is Some by {
            assert(header_loads(hs[i]));
        }
    }
    if ends_fit(hs) {
        assert forall|i: int|
            0 <= i < hs.len() && (#[trigger] hs[i]).0 == 1 && hs[i].2 > 0 implies hs[i].1
            + hs[i].2 <= 0xFFFF_FFFF by {
            assert(header_loads(hs[i]));
        }
    }
}

/// What an image holds, in the fields of the headers alone. It starts at the
/// least address of all headers of type 1 with bytes in the file and ends behind
/// the last of their bytes. Every byte of such a header that no later one covers
/// is at its address, however long the segment; what none covers is `0xFF`.
pub proof fn law_image_holds_every_segment(hs: Seq<HeaderView>, base: int, image: Seq<u8>)
    requires
        is_image(hs, base, image),
    ensures
        forall|i: int|
            0 <= i < hs.len() && (#[trigger] hs[i]).0 == 1 && hs[i].2 > 0 ==> base <= hs[i].1
                && hs[i].1 + hs[i].2 <= base + image.len(),
        exists|i: int|
            0 <= i < hs.len() && (#[trigger] hs[i]).0 == 1 && hs[i].2 > 0 && hs[i].1 == base,
        exists|i: int|
            0 <= i < hs.len() && (#[trigger] hs[i]).0 == 1 && hs[i].2 > 0 && hs[i].1 + hs[i].2
                == base + image.len(),
        forall|i: int, k: int|
            #![trigger hs[i], image[hs[i].1 - base + k]]
            0 <= i < hs.len() && hs[i].0 == 1 && 0 <= k < hs[i].2 && (forall|j: int|
                i < j < hs.len() ==> !((#[trigger] hs[j]).0 == 1 && hs[j].1 <= hs[i].1 + k
                    < hs[j].1 + hs[j].2)) ==> image[hs[i].1 - base + k] == hs[i].3->0[k],
        forall|n: int|
            0 <= n < image.len() && (forall|j: int|
                0 <= j < hs.len() ==> !((#[trigger] hs[j]).0 == 1 && hs[j].1 <= base + n < hs[j].1
                    + hs[j].2)) ==> #[trigger] image[n] == 0xFF,
{
    assert forall|i: int| 0 <= i < hs.len() && (#[trigger] hs[i]).0 == 1 && hs[i].2 > 0 implies base
        <= hs[i].1 && hs[i].1 + hs[i].2 <= base + image.len() by {
        assert(header_loads(hs[i]));
    }
    let first = choose|i: int|
        0 <= i < hs.len() && header_loads(hs[i]) && #[trigger] hs[i].1 == base;
    assert(hs[first].0 == 1 && hs[first].2 > 0 && hs[first].1 == base);
    let last = choose|i: int|
        0 <= i < hs.len() && #[trigger] header_loads(hs[i]) && hs[i].1 + hs[i].2 == base
            + image.len();
    assert(hs[last].0 == 1 && hs[last].2 > 0 && hs[last].1 + hs[last].2 == base + image.len());
    assert forall|i: int, k: int|
        #![trigger hs[i], image[hs[i].1 - base + k]]
        0 <= i < hs.len() && hs[i].0 == 1 && 0 <= k < hs[i].2 && (forall|j: int|
            i < j < hs.len() ==> !((#[trigger] hs[j]).0 == 1 && hs[j].1 <= hs[i].1 + k < hs[j].1
                + hs[j].2)) implies image[hs[i].1 - base + k] == hs[i].3->0[k] by {
        let at = lemma_image_byte(hs, hs[i].1 + k);
        assert(at == i);
        assert(image[hs[i].1 - base + k] == image_byte(hs, base + (hs[i].1 - base + k)));
    }
    assert forall|n: int|
        0 <= n < image.len() && (forall|j: int|
            0 <= j < hs.len() ==> !((#[trigger] hs[j]).0 == 1 && hs[j].1 <= base + n < hs[j].1
                + hs[j].2)) implies #[trigger] image[n] == 0xFF by {
        let at = lemma_image_byte(hs, base + n);
        assert(image[n] == image_byte(hs, base + n));
    }
}

/// The view of a header is its fields, and that of a symbol its name and address.
pub proof fn law_views_are_the_fields(s: Segment, y: Symbol)
    ensures
        s@.0 == s.kind && s@.1 == s.paddr && s@.2 == s.filesz,
        s.data matches Some(d) ==> s@.3 == Some(d@),
        s.data is None ==> s@.3 is None,
        y.name matches Some(n) ==> y@.0 == Some(n@),
        y.name is None ==> y@.0 is None,
        y@.1 == y.address,
{
}

/// Why a file is refused, in its headers' fields: it is no ELF file, a segment
/// ends beyond the address space, nothing is to be loaded, or bytes are missing,
/// the first of these that holds.
pub proof fn law_refusals_in_their_order(file: Seq<u8>)
    ensures
        image_refusal(file) == Some(ElfError::Parse) <==> elf_headers(file) is None,
        elf_headers(file) matches Some(hs) ==> {
            let fits = forall|i: int|
                0 <= i < hs.len() && (#[trigger] hs[i]).0 == 1 && hs[i].2 > 0 ==> hs[i].1
                    + hs[i].2 <= 0xFFFF_FFFF;
            let some = exists|i: int|
                0 <= i < hs.len() && (#[trigger] hs[i]).0 == 1 && hs[i].2 > 0;
            let present = forall|i: int|
                0 <= i < hs.len() && (#[trigger] hs[i]).0 == 1 && hs[i].2 > 0 ==> hs[i].3
                    is Some;
            &&& image_refusal(file) == Some(ElfError::AddressOverflow) <==> !fits
            &&& image_refusal(file) == Some(ElfError::NoLoadableSegments) <==> fits && !some
            &&& image_refusal(file) == Some(ElfError::SegmentData) <==> fits && some && !present
            &&& image_refusal(file) is None <==> fits && some && present
        },
{
    if elf_headers(file) is Some {
        law_every_loadable_header_counts(elf_headers(file)->0);
    }
}

} // verus!
