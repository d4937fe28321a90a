//! Loading an ELF program image into RAM: which segments are copied where,
//! the entry point, and the address of the `tohost` test-harness symbol.
use crate::arith::wrap32;
use crate::flat::{flat_load, flat_load_fits, FlatMemory, FlatView};
use vstd::prelude::*;
use vstd::slice::slice_subrange;

verus! {

/// ELF type of a position-independent (shared-object style) image.
pub const ET_DYN: u16 = 3;

/// Program-header type of a loadable segment.
pub const PT_LOAD: u32 = 1;

/// Where a position-independent image goes when no base is requested
/// (the start of RAM, where OpenSBI's generic platform expects to be).
pub const DEFAULT_PIE_BASE: u32 = 0x8000_0000;

/// One program header, as far as loading needs it.
#[derive(Clone, Copy, PartialEq, Eq, Debug, Structural)]
pub struct ElfSegment {
    pub p_type: u32,
    /// Offset of the segment's bytes in the file.
    pub offset: u64,
    /// Number of bytes the segment has in the file.
    pub file_size: u64,
    /// Physical address (relative to the load base for a PIE image).
    pub paddr: u64,
}

/// One entry of the symbol table: its name, when the string table has one
/// at the symbol's name offset, and its value.
#[derive(Clone, Debug)]
pub struct ElfSymbol {
    pub name: Option<String>,
    pub value: u64,
}

/// A symbol as text and value.
pub ghost struct ElfSymbolView {
    pub name: Option<Seq<char>>,
    pub value: u64,
}

impl View for ElfSymbol {
    type V = ElfSymbolView;

    open spec fn view(&self) -> ElfSymbolView {
        ElfSymbolView {
            name: match self.name {
                Some(s) => Some(s@),
                None => None,
            },
            value: self.value,
        }
    }
}

/// What the loader reads from an ELF file: its type, entry point, program
/// headers and symbol table, in file order.
#[derive(Clone, Debug)]
pub struct ElfImage {
    pub e_type: u16,
    pub entry: u64,
    pub segments: Vec<ElfSegment>,
    pub symbols: Vec<ElfSymbol>,
}

/// An ELF image as plain values.
pub ghost struct ElfImageView {
    pub e_type: u16,
    pub entry: u64,
    pub segments: Seq<ElfSegment>,
    pub symbols: Seq<ElfSymbolView>,
}

impl View for ElfImage {
    type V = ElfImageView;

    open spec fn view(&self) -> ElfImageView {
        ElfImageView {
            e_type: self.e_type,
            entry: self.entry,
            segments: self.segments@,
            symbols: self.symbols@.map_values(|s: ElfSymbol| s@),
        }
    }
}

/// What goblin's ELF parser makes of `bytes`: the image, or the text of its
/// error.
pub uninterp spec fn goblin_elf(bytes: Seq<u8>) -> Result<ElfImageView, Seq<char>>;

/// A parse result as plain values.
pub open spec fn parsed_view(r: Result<ElfImage, String>) -> Result<ElfImageView, Seq<char>> {
    match r {
        Ok(img) => Ok(img@),
        Err(msg) => Err(msg@),
    }
}

/// Parses `bytes` with `goblin::elf::Elf::parse` and keeps what loading
/// needs: the header's type and entry, every program header's type, file
/// offset, file size and physical address, and every symbol's value with
/// its name looked up in the string table (`Strtab::get_at`). On failure,
/// the parser's error as text. The contract only names the result: it is
/// whatever goblin computes from the bytes.
#[verifier::external_body]
fn parse_elf(bytes: &[u8]) -> (r: Result<ElfImage, String>)
    ensures
        parsed_view(r) == goblin_elf(bytes@),
{
    match goblin::elf::Elf::parse(bytes) {
        Ok(elf) => Ok(ElfImage {
            e_type: elf.header.e_type,
            entry: elf.entry,
            segments: elf.program_headers.iter().map(|ph| ElfSegment {
                p_type: ph.p_type, offset: ph.p_offset, file_size: ph.p_filesz, paddr: ph.p_paddr,
            }).collect(),
            symbols: elf.syms.iter().map(|s| ElfSymbol {
                name: elf.strtab.get_at(s.st_name).map(String::from), value: s.st_value,
            }).collect(),
        }),
        Err(e) => Err(e.to_string()),
    }
}

/// What the test harness reports through `tohost`.
#[derive(Clone, Copy, PartialEq, Eq, Debug, Structural)]
pub enum HostStatus {
    /// Nothing written yet: the test is still running.
    Running,
    /// The test passed.
    Pass,
    /// The test with this number failed.
    Fail(u32),
}

/// What the value `val` read from `tohost` reports: 0 while running, 1 for
/// a pass, and otherwise the number of the failing test shifted left by one
/// with the low bit set.
pub fn tohost_status(val: u32) -> (s: HostStatus)
    ensures
        s == (if val == 0 {
            HostStatus::Running
        } else if val == 1 {
            HostStatus::Pass
        } else {
            HostStatus::Fail(val / 2)
        }),
{
    if val == 0 {
        HostStatus::Running
    } else if val == 1 {
        HostStatus::Pass
    } else {
        HostStatus::Fail(val / 2)
    }
}

/// Why a loadable segment could not be copied into RAM.
#[derive(Clone, Copy, PartialEq, Eq, Debug, Structural)]
pub enum SegmentError {
    /// The segment's bytes run past the end of the file.
    OutsideFile { offset: u64, size: u64 },
    /// The segment does not fit in RAM at its load address.
    OutsideRam { addr: u32, size: u64 },
}

/// Why an ELF file could not be loaded.
#[derive(Clone, Debug)]
pub enum ElfLoadError {
    /// The parser rejected the file; its message.
    Parse(String),
    /// A loadable segment could not be placed.
    Segment(SegmentError),
}

/// Where the program ended up.
#[derive(Clone, Copy, PartialEq, Eq, Debug, Structural)]
pub struct LoadedProgram {
    /// The entry point, relocated by the load base.
    pub entry: u32,
    /// The base added to every address of the image.
    pub base: u32,
    /// Whether the image is position-independent (`ET_DYN`).
    pub pie: bool,
    /// The value of the first symbol named `tohost`, truncated to 32 bits.
    pub tohost: Option<u32>,
}

/// The base added to every address of an image: the requested base (by
/// default `DEFAULT_PIE_BASE`) for a position-independent image, 0 for one
/// with fixed addresses, whatever was requested.
pub open spec fn load_base_spec(e_type: u16, requested: Option<u32>) -> u32 {
    if e_type == ET_DYN {
        match requested {
            Some(b) => b,
            None => DEFAULT_PIE_BASE,
        }
    } else {
        0
    }
}

/// The RAM address that segment `s` is copied to.
pub open spec fn segment_addr(s: ElfSegment, base: u32) -> u32 {
    wrap32(s.paddr as u32 + base)
}

/// Copying one segment: only loadable segments with bytes in the file are
/// copied, from the file's `[offset, offset + file_size)` to
/// `segment_addr`.
pub open spec fn place_segment(m: FlatView, file: Seq<u8>, s: ElfSegment, base: u32) -> Result<
    FlatView,
    SegmentError,
> {
    if s.p_type != PT_LOAD || s.file_size == 0 {
        Ok(m)
    } else if s.offset + s.file_size > file.len() {
        Err(SegmentError::OutsideFile { offset: s.offset, size: s.file_size })
    } else if !flat_load_fits(m, segment_addr(s, base), s.file_size as int) {
        Err(SegmentError::OutsideRam { addr: segment_addr(s, base), size: s.file_size })
    } else {
        Ok(
            flat_load(
                m,
                segment_addr(s, base),
                file.subrange(s.offset as int, s.offset + s.file_size),
            ),
        )
    }
}

/// Copying the segments in order: the RAM afterwards, and the error of the
/// first segment that could not be copied (the ones before it stay copied).
pub open spec fn place_segments(m: FlatView, file: Seq<u8>, segs: Seq<ElfSegment>, base: u32) -> (
    FlatView,
    Option<SegmentError>,
)
    decreases segs.len(),
{
    if segs.len() == 0 {
        (m, None)
    } else {
        match place_segment(m, file, segs[0], base) {
            Ok(m1) => place_segments(m1, file, segs.skip(1), base),
            Err(e) => (m, Some(e)),
        }
    }
}

/// The value of the first symbol called `name`.
pub open spec fn symbol_value(syms: Seq<ElfSymbolView>, name: Seq<char>) -> Option<u64>
    decreases syms.len(),
{
    if syms.len() == 0 {
        None
    } else if syms[0].name == Some(name) {
        Some(syms[0].value)
    } else {
        symbol_value(syms.skip(1), name)
    }
}

/// Where a successfully loaded image ended up.
pub open spec fn loaded_program(img: ElfImageView, base: u32) -> LoadedProgram {
    LoadedProgram {
        entry: wrap32(img.entry as u32 + base),
        base,
        pie: img.e_type == ET_DYN,
        tohost: match symbol_value(img.symbols, "tohost"@) {
            Some(v) => Some(v as u32),
            None => None,
        },
    }
}

/// Loading a parsed image into RAM `m`: the RAM afterwards and the outcome.
pub open spec fn place_elf_spec(
    m: FlatView,
    file: Seq<u8>,
    img: ElfImageView,
    requested: Option<u32>,
) -> (FlatView, Result<LoadedProgram, SegmentError>) {
    let base = load_base_spec(img.e_type, requested);
    let (m1, e) = place_segments(m, file, img.segments, base);
    match e {
        Some(err) => (m1, Err(err)),
        None => (m1, Ok(loaded_program(img, base))),
    }
}

/// An image with fixed addresses is loaded verbatim: a requested load base
/// changes nothing, neither the RAM afterwards nor the outcome.
pub proof fn law_fixed_image_ignores_base(
    m: FlatView,
    file: Seq<u8>,
    img: ElfImageView,
    r1: Option<u32>,
    r2: Option<u32>,
)
    requires
        img.e_type != ET_DYN,
    ensures
        place_elf_spec(m, file, img, r1) == place_elf_spec(m, file, img, r2),
{
}

/// The load base for an image of type `e_type`.
pub fn load_base(e_type: u16, requested: Option<u32>) -> (b: u32)
    ensures
        b == load_base_spec(e_type, requested),
{
    if e_type == ET_DYN {
        match requested {
            Some(b) => b,
            None => DEFAULT_PIE_BASE,
        }
    } else {
        0
    }
}

/// The value of the first symbol called `name`, if any.
pub fn find_symbol(symbols: &Vec<ElfSymbol>, name: &str) -> (r: Option<u64>)
    ensures
        r == symbol_value(symbols@.map_values(|s: ElfSymbol| s@), name@),
{
    let ghost all = symbols@.map_values(|s: ElfSymbol| s@);
    let target = name.to_owned();
    let mut i: usize = 0;
    assert(all.skip(0) =~= all);
    while i < symbols.len()
        invariant
            i <= symbols@.len(),
            all == symbols@.map_values(|s: ElfSymbol| s@),
            target@ == name@,
            symbol_value(all, name@) == symbol_value(all.skip(i as int), name@),
        decreases symbols@.len() - i,
    {
        let sym = &symbols[i];
        assert(all.skip(i as int)[0] == sym@);
        assert(all.skip(i as int).skip(1) =~= all.skip(i + 1));
        if let Some(n) = &sym.name {
            if *n == target {
                return Some(sym.value);
            }
        }
        i = i + 1;
    }
    assert(all.skip(i as int).len() == 0);
    None
}

/// Copies the segments of `img`, read from `file`, into `ram` in order,
/// stopping at the first one that cannot be copied.
fn place_segments_exec(ram: &mut FlatMemory, file: &[u8], segs: &Vec<ElfSegment>, base: u32) -> (r:
    Option<SegmentError>)
    ensures
        (final(ram)@, r) == place_segments(old(ram)@, file@, segs@, base),
{
    let mut i: usize = 0;
    assert(segs@.skip(0) =~= segs@);
    while i < segs.len()
        invariant
            i <= segs@.len(),
            place_segments(old(ram)@, file@, segs@, base) == place_segments(
                ram@,
                file@,
                segs@.skip(i as int),
                base,
            ),
        decreases segs@.len() - i,
    {
        let s = segs[i];
        assert(segs@.skip(i as int)[0] == s);
        assert(segs@.skip(i as int).skip(1) =~= segs@.skip(i + 1));
        if s.p_type == PT_LOAD && s.file_size > 0 {
            let len = file.len() as u64;
            if s.offset > len || s.file_size > len - s.offset {
                return Some(SegmentError::OutsideFile { offset: s.offset, size: s.file_size });
            }
            let addr = (s.paddr as u32).wrapping_add(base);
            let size = s.file_size as usize;
            if !ram.can_load(addr, size) {
                return Some(SegmentError::OutsideRam { addr, size: s.file_size });
            }
            let start = s.offset as usize;
            let data = slice_subrange(file, start, start + size);
            ram.load(addr, data);
        }
        i = i + 1;
    }
    None
}

/// Loads an already-parsed image: copies its loadable segments from `file`
/// into `ram` at their addresses plus the load base, and reports the
/// relocated entry point and the `tohost` symbol.
pub fn place_elf(ram: &mut FlatMemory, file: &[u8], img: &ElfImage, requested_base: Option<u32>) -> (r:
    Result<LoadedProgram, SegmentError>)
    ensures
        (final(ram)@, r) == place_elf_spec(old(ram)@, file@, img@, requested_base),
{
    let base = load_base(img.e_type, requested_base);
    match place_segments_exec(ram, file, &img.segments, base) {
        Some(e) => Err(e),
        None => {
            let tohost = match find_symbol(&img.symbols, "tohost") {
                Some(v) => Some(v as u32),
                None => None,
            };
            Ok(
                LoadedProgram {
                    entry: (img.entry as u32).wrapping_add(base),
                    base,
                    pie: img.e_type == ET_DYN,
                    tohost,
                },
            )
        },
    }
}

/// Parses the ELF file `bytes` and loads it into `ram`. A parse failure
/// leaves `ram` as it was; otherwise the outcome is that of `place_elf`.
pub fn load_elf(ram: &mut FlatMemory, bytes: &[u8], requested_base: Option<u32>) -> (r: Result<
    LoadedProgram,
    ElfLoadError,
>)
    ensures
        match goblin_elf(bytes@) {
            Err(msg) => r matches Err(ElfLoadError::Parse(s)) && s@ == msg && final(ram)@ == old(
                ram,
            )@,
            Ok(img) => {
                let (m, out) = place_elf_spec(old(ram)@, bytes@, img, requested_base);
                &&& final(ram)@ == m
                &&& match out {
                    Ok(p) => r == Ok::<LoadedProgram, ElfLoadError>(p),
                    Err(e) => r matches Err(ElfLoadError::Segment(e2)) && e2 == e,
                }
            },
        },
{
    match parse_elf(bytes) {
        Err(msg) => Err(ElfLoadError::Parse(msg)),
        Ok(img) => match place_elf(ram, bytes, &img, requested_base) {
            Ok(p) => Ok(p),
            Err(e) => Err(ElfLoadError::Segment(e)),
        },
    }
}

} // verus!
