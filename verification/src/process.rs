use vstd::prelude::*;

verus! {

/// Bytes in a page.
pub const PAGE_SIZE: u64 = 4096;

/// The lowest address of the upper canonical half.
pub const UPPER_HALF_START: u64 = 0xFFFF_8000_0000_0000;

/// One past the highest address of the lower canonical half.
pub const LOWER_HALF_END: u64 = 0x0000_8000_0000_0000;

/// The lowest page of the user stack.
pub const USER_STACK_BOTTOM: u64 = 0x0000_7FFF_FFFF_0000;

/// The highest page of the user stack.
pub const USER_STACK_TOP_PAGE: u64 = 0x0000_7FFF_FFFF_F000;

/// The stack pointer a new process starts with: just above its stack.
pub const USER_STACK_POINTER: u64 = 0x0000_7FFF_FFFF_F000 + 4096;

/// The type of a program header.
#[derive(Clone, Copy, Debug, PartialEq, Eq, Structural)]
pub enum SegmentKind {
    /// A loadable segment.
    Load,
    /// A segment of another known type.
    Other,
    /// A type the parser does not know.
    Invalid,
}

/// A program header of an ELF file.
#[derive(Clone, Copy, Debug, PartialEq, Eq, Structural)]
pub struct ElfSegment {
    pub kind: SegmentKind,
    pub vaddr: u64,
    pub mem_size: u64,
    pub file_size: u64,
    pub offset: u64,
}

/// What the loader reads of an ELF file's header: the entry point and the
/// program headers, in order.
pub struct ElfProgram {
    pub entry: u64,
    pub segments: Vec<ElfSegment>,
}

/// One page of a loaded segment: the page's virtual address, and the
/// `copy_len` bytes at file offset `file_start` copied to its start (the
/// rest of the page is zeroed).
#[derive(Clone, Copy, Debug, PartialEq, Eq, Structural)]
pub struct PageLoad {
    pub page: u64,
    pub file_start: u64,
    pub copy_len: u64,
}

/// The pages a process image needs, in the order the loader fills them,
/// and where execution starts.
pub struct ProcessImage {
    pub entry: u64,
    pub pages: Vec<PageLoad>,
}

/// Whether `a` is a canonical x86-64 virtual address.
pub open spec fn canonical(a: int) -> bool {
    (0 <= a < LOWER_HALF_END) || (UPPER_HALF_START <= a <= u64::MAX)
}

/// Pages of a page-aligned segment of `mem_size` bytes.
pub open spec fn page_count(mem_size: u64) -> int {
    if mem_size == 0 {
        0
    } else {
        (mem_size - 1) / 4096 + 1
    }
}

/// Where the file bytes that the loader copies for `seg` end.
pub open spec fn copy_end(seg: ElfSegment) -> int {
    let span = page_count(seg.mem_size) * 4096;
    seg.offset + if seg.file_size < span {
        seg.file_size as int
    } else {
        span
    }
}

/// Whether loading `seg` from a file of `data_len` bytes goes through: its
/// address range is canonical, page-aligned and does not run into the
/// non-canonical gap (the page walk also steps past the last page), and
/// every byte it copies lies in the file.
pub open spec fn segment_loadable(seg: ElfSegment, data_len: int) -> bool {
    let v = seg.vaddr as int;
    let m = seg.mem_size as int;
    let n = page_count(seg.mem_size);
    &&& canonical(v)
    &&& canonical(v + m)
    &&& v + m >= 1
    &&& canonical(v + m - 1)
    &&& v % 4096 == 0
    &&& n >= 1 && v < LOWER_HALF_END ==> v + n * 4096 < LOWER_HALF_END
    &&& n >= 1 && seg.file_size > 0 ==> copy_end(seg) <= data_len
}

/// The `k`-th page of loadable segment `seg`.
pub open spec fn segment_page(seg: ElfSegment, k: int) -> PageLoad {
    let po = k * 4096;
    if po < seg.file_size {
        PageLoad {
            page: (seg.vaddr + po) as u64,
            file_start: (seg.offset + po) as u64,
            copy_len: (if seg.file_size - po < 4096 { seg.file_size - po } else { 4096 }) as u64,
        }
    } else {
        PageLoad { page: (seg.vaddr + po) as u64, file_start: 0, copy_len: 0 }
    }
}

/// The pages of loadable segment `seg`, lowest first.
pub open spec fn segment_pages_spec(seg: ElfSegment) -> Seq<PageLoad> {
    Seq::new(page_count(seg.mem_size) as nat, |k: int| segment_page(seg, k))
}

fn page_count_exec(mem_size: u64) -> (n: u64)
    ensures
        n == page_count(mem_size),
{
    if mem_size == 0 {
        0
    } else {
        (mem_size - 1) / 4096 + 1
    }
}

/// Tests `segment_loadable`.
pub fn segment_loadable_exec(seg: &ElfSegment, data_len: usize) -> (r: bool)
    ensures
        r == segment_loadable(*seg, data_len as int),
{
    let v = seg.vaddr as u128;
    let m = seg.mem_size as u128;
    let n = page_count_exec(seg.mem_size) as u128;
    let lower = LOWER_HALF_END as u128;
    let upper = UPPER_HALF_START as u128;
    let max = u64::MAX as u128;
    let canon_v = v < lower || (upper <= v && v <= max);
    let top = v + m;
    let canon_top = top < lower || (upper <= top && top <= max);
    if !(canon_v && canon_top && top >= 1) {
        return false;
    }
    let last = top - 1;
    let canon_last = last < lower || (upper <= last && last <= max);
    if !canon_last || v % 4096 != 0 {
        return false;
    }
    if n >= 1 && v < lower && v + n * 4096 >= lower {
        return false;
    }
    if n >= 1 && seg.file_size > 0 {
        let span = n * 4096;
        let f = seg.file_size as u128;
        let copied = if f < span { f } else { span };
        if seg.offset as u128 + copied > data_len as u128 {
            return false;
        }
    }
    true
}

/// The pages to fill for loadable segment `seg`: page `k` lies at
/// `vaddr + k * 4096`; while that offset is inside the file part, up to a
/// page of file bytes is copied from `offset + k * 4096`.
pub fn segment_pages(seg: &ElfSegment, data_len: usize) -> (pages: Vec<PageLoad>)
    requires
        segment_loadable(*seg, data_len as int),
    ensures
        pages@ == segment_pages_spec(*seg),
{
    let n = page_count_exec(seg.mem_size);
    let mut pages: Vec<PageLoad> = Vec::new();
    let mut k: u64 = 0;
    proof {
        assert(n * 4096 <= seg.mem_size + 4095) by (nonlinear_arith)
            requires
                n == page_count(seg.mem_size),
        ;
    }
    while k < n
        invariant
            k <= n,
            n == page_count(seg.mem_size),
            n * 4096 <= seg.mem_size + 4095,
            segment_loadable(*seg, data_len as int),
            pages@ == segment_pages_spec(*seg).take(k as int),
        decreases n - k,
    {
        proof {
            assert(k * 4096 + 4096 <= n * 4096) by (nonlinear_arith)
                requires
                    k < n,
            ;
        }
        let po = k * 4096;
        let page = seg.vaddr + po;
        let load = if po < seg.file_size {
            let rest = seg.file_size - po;
            let copy_len = if rest < 4096 { rest } else { 4096 };
            proof {
                if seg.file_size < n * 4096 {
                    assert(seg.offset + po + copy_len <= seg.offset + seg.file_size);
                } else {
                    assert(seg.offset + po + copy_len <= seg.offset + n * 4096);
                }
            }
            PageLoad { page, file_start: seg.offset + po, copy_len }
        } else {
            PageLoad { page, file_start: 0, copy_len: 0 }
        };
        pages.push(load);
        proof {
            assert(pages@ =~= segment_pages_spec(*seg).take(k + 1));
        }
        k = k + 1;
    }
    proof {
        assert(segment_pages_spec(*seg).take(n as int) =~= segment_pages_spec(*seg));
    }
    pages
}

/// The pages of all loadable segments, in program-header order.
pub open spec fn image_pages(segments: Seq<ElfSegment>) -> Seq<PageLoad>
    decreases segments.len(),
{
    if segments.len() == 0 {
        Seq::empty()
    } else {
        let before = image_pages(segments.drop_last());
        if segments.last().kind == SegmentKind::Load {
            before + segment_pages_spec(segments.last())
        } else {
            before
        }
    }
}

/// Whether every program header can be loaded from a file of `data_len`
/// bytes: its type is known, and loadable segments pass `segment_loadable`.
pub open spec fn program_loadable(segments: Seq<ElfSegment>, data_len: int) -> bool {
    forall|k: int|
        0 <= k < segments.len() ==> {
            &&& (#[trigger] segments[k]).kind != SegmentKind::Invalid
            &&& segments[k].kind == SegmentKind::Load ==> segment_loadable(segments[k], data_len)
        }
}

/// Plans the loading of an ELF executable of `data_len` bytes whose header
/// gives `program`: the pages of its loadable segments, in program-header
/// order, and its entry point. `None` when a program header has an unknown
/// type or a segment cannot be loaded (the loader stops there).
pub fn plan_process(program: &ElfProgram, data_len: usize) -> (r: Option<ProcessImage>)
    ensures
        if program_loadable(program.segments@, data_len as int) {
            r matches Some(img) && img.entry == program.entry && img.pages@ == image_pages(
                program.segments@,
            )
        } else {
            r is None
        },
{
    let ghost segs = program.segments@;
    let mut pages: Vec<PageLoad> = Vec::new();
    let mut k: usize = 0;
    while k < program.segments.len()
        invariant
            k <= segs.len(),
            segs == program.segments@,
            program_loadable(segs.take(k as int), data_len as int),
            pages@ == image_pages(segs.take(k as int)),
        decreases segs.len() - k,
    {
        let seg = program.segments[k];
        proof {
            assert(segs.take(k + 1).drop_last() =~= segs.take(k as int));
        }
        match seg.kind {
            SegmentKind::Invalid => {
                proof {
                    assert(segs[k as int].kind == SegmentKind::Invalid);
                    assert(!program_loadable(segs, data_len as int));
                }
                return None;
            },
            SegmentKind::Load => {
                if !segment_loadable_exec(&seg, data_len) {
                    proof {
                        assert(!program_loadable(segs, data_len as int));
                    }
                    return None;
                }
                let mut more = segment_pages(&seg, data_len);
                pages.append(&mut more);
            },
            SegmentKind::Other => {},
        }
        proof {
            assert forall|j: int| 0 <= j < k + 1 implies {
                &&& (#[trigger] segs.take(k + 1)[j]).kind != SegmentKind::Invalid
                &&& segs.take(k + 1)[j].kind == SegmentKind::Load ==> segment_loadable(
                    segs.take(k + 1)[j],
                    data_len as int,
                )
            } by {
                if j < k {
                    assert(segs.take(k + 1)[j] == segs.take(k as int)[j]);
                }
            }
        }
        k = k + 1;
    }
    proof {
        assert(segs.take(segs.len() as int) =~= segs);
    }
    Some(ProcessImage { entry: program.entry, pages })
}

/// Each page of a loadable segment lies on a page boundary, and what it
/// copies lies inside the file.
pub proof fn lemma_segment_pages_in_file(seg: ElfSegment, data_len: int, k: int)
    requires
        segment_loadable(seg, data_len),
        0 <= k < page_count(seg.mem_size),
    ensures
        segment_page(seg, k).page % 4096 == 0,
        segment_page(seg, k).copy_len > 0 ==> segment_page(seg, k).file_start
            + segment_page(seg, k).copy_len <= data_len,
{
    let n = page_count(seg.mem_size);
    assert(k * 4096 + 4096 <= n * 4096) by (nonlinear_arith)
        requires
            k < n,
    ;
    assert(n * 4096 <= seg.mem_size + 4095) by (nonlinear_arith)
        requires
            n == page_count(seg.mem_size),
    ;
    assert(k * 4096 < seg.mem_size) by (nonlinear_arith)
        requires
            n == (seg.mem_size - 1) / 4096 + 1,
            seg.mem_size >= 1,
            0 <= k < n,
    ;
    assert((seg.vaddr + k * 4096) % 4096 == 0) by (nonlinear_arith)
        requires
            seg.vaddr % 4096 == 0,
    ;
    assert(seg.vaddr + k * 4096 <= u64::MAX);
}

/// The loader never copies bytes from beyond the end of the file, and
/// every page it fills is page-aligned.
pub proof fn law_loader_stays_in_file(segments: Seq<ElfSegment>, data_len: int)
    requires
        program_loadable(segments, data_len),
    ensures
        forall|i: int|
            0 <= i < image_pages(segments).len() ==> {
                &&& (#[trigger] image_pages(segments)[i]).page % 4096 == 0
                &&& image_pages(segments)[i].copy_len > 0 ==> image_pages(segments)[i].file_start
                    + image_pages(segments)[i].copy_len <= data_len
            },
    decreases segments.len(),
{
    if segments.len() > 0 {
        let rest = segments.drop_last();
        assert(program_loadable(rest, data_len)) by {
            assert forall|k: int| 0 <= k < rest.len() implies #[trigger] rest[k] == segments[k] by {}
        }
        law_loader_stays_in_file(rest, data_len);
        let last = segments.last();
        assert(last == segments[segments.len() - 1]);
        if last.kind == SegmentKind::Load {
            let before = image_pages(rest);
            let mine = segment_pages_spec(last);
            assert(image_pages(segments) == before + mine);
            assert forall|i: int| 0 <= i < (before + mine).len() implies {
                &&& (#[trigger] (before + mine)[i]).page % 4096 == 0
                &&& (before + mine)[i].copy_len > 0 ==> (before + mine)[i].file_start + (before
                    + mine)[i].copy_len <= data_len
            } by {
                if i < before.len() {
                    assert((before + mine)[i] == before[i]);
                } else {
                    lemma_segment_pages_in_file(last, data_len, i - before.len());
                    assert((before + mine)[i] == segment_page(last, i - before.len()));
                }
            }
        } else {
            assert(image_pages(segments) == image_pages(rest));
        }
    }
}

/// The little-endian number held in the `n` bytes of `d` from index `i`.
pub open spec fn le_bytes(d: Seq<u8>, i: int, n: nat) -> nat
    decreases n,
{
    if n == 0 {
        0
    } else {
        d[i] as nat + 256 * le_bytes(d, i + 1, (n - 1) as nat)
    }
}

/// 256 to the power `n`.
pub open spec fn radix(n: nat) -> nat
    decreases n,
{
    if n == 0 {
        1
    } else {
        256 * radix((n - 1) as nat)
    }
}

/// `n` bytes hold a number below 256 to the power `n`.
proof fn lemma_le_bytes_bound(d: Seq<u8>, i: int, n: nat)
    requires
        0 <= i,
        i + n <= d.len(),
    ensures
        le_bytes(d, i, n) < radix(n),
    decreases n,
{
    if n > 0 {
        lemma_le_bytes_bound(d, i + 1, (n - 1) as nat);
    }
}

/// `radix` grows with its exponent.
proof fn lemma_radix_grows(n: nat, m: nat)
    requires
        n <= m,
    ensures
        radix(n) <= radix(m),
    decreases m,
{
    if n < m {
        lemma_radix_grows(n, (m - 1) as nat);
    }
}

/// Reads the little-endian number in `data[i..i + n]`.
fn read_le(data: &[u8], i: usize, n: usize) -> (r: u64)
    requires
        n <= 8,
        i + n <= data.len(),
    ensures
        r == le_bytes(data@, i as int, n as nat),
    decreases n,
{
    if n == 0 {
        0
    } else {
        let rest = read_le(data, i + 1, n - 1);
        proof {
            lemma_le_bytes_bound(data@, i + 1, (n - 1) as nat);
            lemma_radix_grows((n - 1) as nat, 7);
            assert(radix(7) == 0x100_0000_0000_0000) by {
                reveal_with_fuel(radix, 8);
            }
        }
        data[i] as u64 + 256 * rest
    }
}

/// Whether `d` starts with the ELF magic number `7f 'E' 'L' 'F'`.
pub open spec fn elf_magic(d: Seq<u8>) -> bool {
    &&& d.len() >= 4
    &&& d[0] == 0x7fu8
    &&& d[1] == 0x45u8
    &&& d[2] == 0x4cu8
    &&& d[3] == 0x46u8
}

/// Whether the file is of the 64-bit class (byte 4 is 2; 1 is 32-bit).
pub open spec fn elf_is_64(d: Seq<u8>) -> bool {
    d[4] == 2u8
}

/// Whether the parser accepts the ELF header of `d`: the magic number, and
/// the whole header of its class (52 bytes for 32-bit, 64 for 64-bit).
pub open spec fn elf_header_parses(d: Seq<u8>) -> bool {
    &&& d.len() >= 16
    &&& elf_magic(d)
    &&& (d[4] == 1u8 && d.len() >= 52) || (d[4] == 2u8 && d.len() >= 64)
}

/// The entry point in the header.
pub open spec fn elf_entry(d: Seq<u8>) -> nat {
    if elf_is_64(d) {
        le_bytes(d, 24, 8)
    } else {
        le_bytes(d, 24, 4)
    }
}

/// The offset of the program-header table in the header.
pub open spec fn elf_ph_offset(d: Seq<u8>) -> nat {
    if elf_is_64(d) {
        le_bytes(d, 32, 8)
    } else {
        le_bytes(d, 28, 4)
    }
}

/// The size of one program-header entry in the header.
pub open spec fn elf_ph_entry_size(d: Seq<u8>) -> nat {
    if elf_is_64(d) {
        le_bytes(d, 54, 2)
    } else {
        le_bytes(d, 42, 2)
    }
}

/// The number of program headers in the header.
pub open spec fn elf_ph_count(d: Seq<u8>) -> nat {
    if elf_is_64(d) {
        le_bytes(d, 56, 2)
    } else {
        le_bytes(d, 44, 2)
    }
}

/// The bytes a program header of the file's class occupies, which is also
/// how far apart the parser needs them aligned: 56 and 8 for 64-bit, 32
/// and 4 for 32-bit.
pub open spec fn elf_ph_min_size(d: Seq<u8>) -> nat {
    if elf_is_64(d) {
        56
    } else {
        32
    }
}

pub open spec fn elf_ph_align(d: Seq<u8>) -> nat {
    if elf_is_64(d) {
        8
    } else {
        4
    }
}

/// Whether the ELF parser reads `d` (copied to an 8-aligned buffer) without
/// tripping over it: either it rejects the header, or the file has no
/// program-header table, or the table lies inside the file with its offset
/// and entry size multiples of the class's alignment and entries of at
/// least a program header's size. Header fields are read little-endian, as
/// on x86-64.
pub open spec fn elf_tables_in_file(d: Seq<u8>) -> bool {
    let off = elf_ph_offset(d);
    let size = elf_ph_entry_size(d);
    let count = elf_ph_count(d);
    elf_header_parses(d) ==> {
        ||| count == 0 || off == 0 || size == 0
        ||| {
            &&& size >= elf_ph_min_size(d)
            &&& off % elf_ph_align(d) == 0
            &&& size % elf_ph_align(d) == 0
            &&& off + count * size <= d.len()
        }
    }
}

/// The segment kind of program-header type `t`: 1 is a loadable segment;
/// types 0 to 7 and the OS- and processor-specific range `0x6000_0000` to
/// `0x7fff_ffff` are other known types; the rest are unknown.
pub open spec fn segment_kind_of(t: nat) -> SegmentKind {
    if t == 1 {
        SegmentKind::Load
    } else if t <= 7 || (0x6000_0000 <= t <= 0x7fff_ffff) {
        SegmentKind::Other
    } else {
        SegmentKind::Invalid
    }
}

/// The program header at byte `o` of `d`, in the layout of the file's class.
pub open spec fn elf_segment_at(d: Seq<u8>, o: int) -> ElfSegment {
    if elf_is_64(d) {
        ElfSegment {
            kind: segment_kind_of(le_bytes(d, o, 4)),
            offset: le_bytes(d, o + 8, 8) as u64,
            vaddr: le_bytes(d, o + 16, 8) as u64,
            file_size: le_bytes(d, o + 32, 8) as u64,
            mem_size: le_bytes(d, o + 40, 8) as u64,
        }
    } else {
        ElfSegment {
            kind: segment_kind_of(le_bytes(d, o, 4)),
            offset: le_bytes(d, o + 4, 4) as u64,
            vaddr: le_bytes(d, o + 8, 4) as u64,
            file_size: le_bytes(d, o + 16, 4) as u64,
            mem_size: le_bytes(d, o + 20, 4) as u64,
        }
    }
}

/// What the ELF parser reads from the file `d`: `None` when it rejects the
/// header, else the entry point and the program headers in table order
/// (none when the table's offset or entry size is 0).
pub open spec fn elf_program(d: Seq<u8>) -> Option<(u64, Seq<ElfSegment>)> {
    if !elf_header_parses(d) {
        None
    } else {
        let off = elf_ph_offset(d);
        let size = elf_ph_entry_size(d);
        let segments = if off == 0 || size == 0 {
            Seq::empty()
        } else {
            Seq::new(elf_ph_count(d), |i: int| elf_segment_at(d, off + i * size))
        };
        Some((elf_entry(d) as u64, segments))
    }
}

/// Reads a header field whose width depends on the class.
fn read_class_field(data: &[u8], is_64: bool, at64: usize, n64: usize, at32: usize, n32: usize) -> (r: u64)
    requires
        n64 <= 8,
        n32 <= 8,
        is_64 ==> at64 + n64 <= data.len(),
        !is_64 ==> at32 + n32 <= data.len(),
    ensures
        r == if is_64 {
            le_bytes(data@, at64 as int, n64 as nat)
        } else {
            le_bytes(data@, at32 as int, n32 as nat)
        },
{
    if is_64 {
        read_le(data, at64, n64)
    } else {
        read_le(data, at32, n32)
    }
}

/// Tests `elf_tables_in_file`.
pub fn elf_tables_fit(data: &[u8]) -> (r: bool)
    ensures
        r == elf_tables_in_file(data@),
{
    let len = data.len();
    if len < 16 || data[0] != 0x7f || data[1] != 0x45 || data[2] != 0x4c || data[3] != 0x46 {
        return true;
    }
    let class = data[4];
    if !((class == 1 && len >= 52) || (class == 2 && len >= 64)) {
        return true;
    }
    let is_64 = class == 2;
    let off = read_class_field(data, is_64, 32, 8, 28, 4);
    let size = read_class_field(data, is_64, 54, 2, 42, 2);
    let count = read_class_field(data, is_64, 56, 2, 44, 2);
    if count == 0 || off == 0 || size == 0 {
        return true;
    }
    let (min_size, align): (u64, u64) = if is_64 {
        (56, 8)
    } else {
        (32, 4)
    };
    proof {
        if is_64 {
            lemma_le_bytes_bound(data@, 54, 2);
            lemma_le_bytes_bound(data@, 56, 2);
        } else {
            lemma_le_bytes_bound(data@, 42, 2);
            lemma_le_bytes_bound(data@, 44, 2);
        }
        assert(radix(2) == 65536) by {
            reveal_with_fuel(radix, 3);
        }
        assert(count * size <= 65535 * 65535) by (nonlinear_arith)
            requires
                count < 65536,
                size < 65536,
        ;
    }
    let len64 = len as u64;
    size >= min_size && off % align == 0 && size % align == 0 && off <= len64 && count * size
        <= len64 - off
}

/// Parses `data` with `xmas_elf::ElfFile::new` and reads the entry point and
/// every program header that `program_iter` yields (type, virtual address,
/// memory size, file size, file offset), which `elf_program` states from
/// the parser's source: the header and program-header layouts of both
/// classes, read little-endian as on x86-64, with `get_type`'s table of
/// known types. The parser reads the file in place and asserts that its
/// tables are aligned, so it is handed an 8-aligned copy of the bytes;
/// `elf_tables_in_file` keeps it off the inputs on which it would slice out
/// of bounds or find a table misaligned.
#[verifier::external_body]
fn parse_elf(data: &[u8]) -> (r: Option<ElfProgram>)
    requires
        elf_tables_in_file(data@),
    ensures
        match r {
            Some(p) => elf_program(data@) == Some((p.entry, p.segments@)),
            None => elf_program(data@) is None,
        },
{
    let mut copy = vec![0u8; data.len() + 8];
    let at = copy.as_ptr().align_offset(8);
    copy[at..at + data.len()].copy_from_slice(data);
    let elf = xmas_elf::ElfFile::new(&copy[at..at + data.len()]).ok()?;
    let segments = elf.program_iter().map(|ph| ElfSegment {
        kind: match ph.get_type() {
            Ok(xmas_elf::program::Type::Load) => SegmentKind::Load,
            Ok(_) => SegmentKind::Other,
            Err(_) => SegmentKind::Invalid,
        },
        vaddr: ph.virtual_addr(), mem_size: ph.mem_size(), file_size: ph.file_size(), offset: ph.offset(),
    }).collect();
    Some(ElfProgram { entry: elf.header.pt2.entry_point(), segments })
}

/// Plans the loading of the ELF executable `elf_data`: `None` when the
/// parser cannot read its tables safely or rejects its header, else what
/// `plan_process` makes of the entry point and program headers it reads.
pub fn load_plan(elf_data: &[u8]) -> (r: Option<ProcessImage>)
    ensures
        !elf_tables_in_file(elf_data@) ==> r is None,
        elf_tables_in_file(elf_data@) ==> match elf_program(elf_data@) {
            Some((e, segs)) => if program_loadable(segs, elf_data@.len() as int) {
                r matches Some(img) && img.entry == e && img.pages@ == image_pages(segs)
            } else {
                r is None
            },
            None => r is None,
        },
{
    if !elf_tables_fit(elf_data) {
        return None;
    }
    match parse_elf(elf_data) {
        Some(program) => plan_process(&program, elf_data.len()),
        None => None,
    }
}

} // verus!
