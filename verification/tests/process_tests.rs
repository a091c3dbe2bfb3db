use usya::process::{
    elf_tables_fit, load_plan,
    plan_process, segment_loadable_exec, segment_pages, ElfProgram, ElfSegment, PageLoad,
    SegmentKind, USER_STACK_BOTTOM, USER_STACK_POINTER, USER_STACK_TOP_PAGE,
};

fn seg(kind: SegmentKind, vaddr: u64, mem_size: u64, file_size: u64, offset: u64) -> ElfSegment {
    ElfSegment { kind, vaddr, mem_size, file_size, offset }
}

#[test]
fn segment_is_split_into_pages_with_file_part_and_bss() {
    let s = seg(SegmentKind::Load, 0x40_0000, 0x2100, 0x1800, 0x1000);
    assert!(segment_loadable_exec(&s, 0x2800));
    assert_eq!(
        segment_pages(&s, 0x2800),
        vec![
            PageLoad { page: 0x40_0000, file_start: 0x1000, copy_len: 0x1000 },
            PageLoad { page: 0x40_1000, file_start: 0x2000, copy_len: 0x800 },
            PageLoad { page: 0x40_2000, file_start: 0, copy_len: 0 },
        ]
    );
}

#[test]
fn plan_collects_load_segments_in_order() {
    let program = ElfProgram {
        entry: 0x40_0010,
        segments: vec![
            seg(SegmentKind::Other, 0, 0, 0, 0),
            seg(SegmentKind::Load, 0x40_0000, 0x10, 0x10, 0),
            seg(SegmentKind::Load, 0x60_0000, 0x1000, 0, 0),
        ],
    };
    let image = plan_process(&program, 0x100).unwrap();
    assert_eq!(image.entry, 0x40_0010);
    assert_eq!(
        image.pages,
        vec![
            PageLoad { page: 0x40_0000, file_start: 0, copy_len: 0x10 },
            PageLoad { page: 0x60_0000, file_start: 0, copy_len: 0 },
        ]
    );
}

#[test]
fn plan_rejects_unknown_header_types() {
    let program = ElfProgram {
        entry: 0,
        segments: vec![seg(SegmentKind::Invalid, 0, 0, 0, 0)],
    };
    assert!(plan_process(&program, 0).is_none());
}

#[test]
fn plan_rejects_segments_it_cannot_load() {
    // Not page-aligned.
    let unaligned = seg(SegmentKind::Load, 0x40_0010, 0x10, 0x10, 0);
    assert!(!segment_loadable_exec(&unaligned, 0x100));
    // File part beyond the end of the file.
    let truncated = seg(SegmentKind::Load, 0x40_0000, 0x1000, 0x1000, 0);
    assert!(!segment_loadable_exec(&truncated, 0x800));
    // Address zero with nothing in it: the end address would be -1.
    let at_zero = seg(SegmentKind::Load, 0, 0, 0, 0);
    assert!(!segment_loadable_exec(&at_zero, 0));
    // Running into the non-canonical gap.
    let gap = seg(SegmentKind::Load, 0x7FFF_FFFF_F000, 0x1000, 0, 0);
    assert!(!segment_loadable_exec(&gap, 0));
    // In the upper half.
    let high = seg(SegmentKind::Load, 0xFFFF_8000_0000_0000, 0x1000, 0, 0);
    assert!(segment_loadable_exec(&high, 0));
    let program = ElfProgram { entry: 0, segments: vec![unaligned] };
    assert!(plan_process(&program, 0x100).is_none());
}

#[test]
fn empty_load_segment_has_no_pages() {
    let s = seg(SegmentKind::Load, 0x1000, 0, 0, 0);
    assert!(segment_loadable_exec(&s, 0));
    assert_eq!(segment_pages(&s, 0), vec![]);
}

#[test]
fn user_stack_layout() {
    assert_eq!((USER_STACK_TOP_PAGE - USER_STACK_BOTTOM) / 4096 + 1, 16);
    assert_eq!(USER_STACK_POINTER, 0x0000_8000_0000_0000);
}

fn put(bytes: &mut [u8], at: usize, value: u64, width: usize) {
    for k in 0..width {
        bytes[at + k] = (value >> (8 * k)) as u8;
    }
}

/// A 64-bit executable of 0x100 bytes with one program header of type
/// `p_type` loading the whole file at 0x40_0000 into 0x2000 bytes.
fn tiny_elf(p_type: u32) -> Vec<u8> {
    let mut f = vec![0u8; 0x100];
    f[..4].copy_from_slice(&[0x7f, b'E', b'L', b'F']);
    f[4] = 2;
    f[5] = 1;
    f[6] = 1;
    put(&mut f, 16, 2, 2);
    put(&mut f, 18, 0x3E, 2);
    put(&mut f, 20, 1, 4);
    put(&mut f, 24, 0x40_0078, 8);
    put(&mut f, 32, 64, 8);
    put(&mut f, 52, 64, 2);
    put(&mut f, 54, 56, 2);
    put(&mut f, 56, 1, 2);
    put(&mut f, 64, p_type as u64, 4);
    put(&mut f, 68, 5, 4);
    put(&mut f, 72, 0, 8);
    put(&mut f, 80, 0x40_0000, 8);
    put(&mut f, 88, 0x40_0000, 8);
    put(&mut f, 96, 0x100, 8);
    put(&mut f, 104, 0x2000, 8);
    put(&mut f, 112, 0x1000, 8);
    f
}

fn tiny_elf_pages() -> Vec<PageLoad> {
    vec![
        PageLoad { page: 0x40_0000, file_start: 0, copy_len: 0x100 },
        PageLoad { page: 0x40_1000, file_start: 0, copy_len: 0 },
    ]
}

#[test]
fn load_plan_reads_the_program_headers() {
    let f = tiny_elf(1);
    assert!(elf_tables_fit(&f));
    let image = load_plan(&f).unwrap();
    assert_eq!(image.entry, 0x40_0078);
    assert_eq!(image.pages, tiny_elf_pages());
}

#[test]
fn load_plan_takes_bytes_at_any_address() {
    let f = tiny_elf(1);
    for shift in 1..8 {
        let mut v = vec![0u8; shift];
        v.extend_from_slice(&f);
        let image = load_plan(&v[shift..]).unwrap();
        assert_eq!(image.entry, 0x40_0078);
        assert_eq!(image.pages, tiny_elf_pages());
    }
}

#[test]
fn load_plan_skips_segments_that_are_not_loadable() {
    let image = load_plan(&tiny_elf(4)).unwrap();
    assert_eq!(image.entry, 0x40_0078);
    assert!(image.pages.is_empty());
}

#[test]
fn load_plan_refuses_an_unknown_segment_type() {
    assert!(load_plan(&tiny_elf(0x1234)).is_none());
}

#[test]
fn load_plan_refuses_what_is_not_an_elf() {
    assert!(load_plan(&[0u8; 64]).is_none());
    assert!(load_plan(&tiny_elf(1)[..63]).is_none());
    let mut f = tiny_elf(1);
    f[0] = 0;
    assert!(elf_tables_fit(&f));
    assert!(load_plan(&f).is_none());
}

#[test]
fn load_plan_refuses_a_table_outside_the_file() {
    let mut f = tiny_elf(1);
    put(&mut f, 56, 4, 2);
    assert!(!elf_tables_fit(&f));
    assert!(load_plan(&f).is_none());
    let mut g = tiny_elf(1);
    put(&mut g, 32, 68, 8);
    assert!(!elf_tables_fit(&g));
    assert!(load_plan(&g).is_none());
}

/// The 32-bit counterpart of `tiny_elf(1)`.
fn tiny_elf32() -> Vec<u8> {
    let mut f = vec![0u8; 0x100];
    f[..4].copy_from_slice(&[0x7f, b'E', b'L', b'F']);
    f[4] = 1;
    f[5] = 1;
    f[6] = 1;
    put(&mut f, 16, 2, 2);
    put(&mut f, 18, 3, 2);
    put(&mut f, 20, 1, 4);
    put(&mut f, 24, 0x40_0054, 4);
    put(&mut f, 28, 52, 4);
    put(&mut f, 40, 52, 2);
    put(&mut f, 42, 32, 2);
    put(&mut f, 44, 1, 2);
    put(&mut f, 52, 1, 4);
    put(&mut f, 56, 0, 4);
    put(&mut f, 60, 0x40_0000, 4);
    put(&mut f, 64, 0x40_0000, 4);
    put(&mut f, 68, 0x100, 4);
    put(&mut f, 72, 0x2000, 4);
    put(&mut f, 76, 5, 4);
    put(&mut f, 80, 0x1000, 4);
    f
}

#[test]
fn load_plan_reads_a_32_bit_executable() {
    let f = tiny_elf32();
    assert!(elf_tables_fit(&f));
    for shift in 0..8 {
        let mut v = vec![0u8; shift];
        v.extend_from_slice(&f);
        let image = load_plan(&v[shift..]).unwrap();
        assert_eq!(image.entry, 0x40_0054);
        assert_eq!(image.pages, tiny_elf_pages());
    }
}

#[test]
fn load_plan_refuses_a_misaligned_32_bit_table() {
    let mut f = tiny_elf32();
    put(&mut f, 28, 54, 4);
    assert!(!elf_tables_fit(&f));
    assert!(load_plan(&f).is_none());
}

#[test]
fn load_plan_reads_no_segments_from_a_table_at_offset_zero() {
    let mut f = tiny_elf(1);
    put(&mut f, 32, 0, 8);
    assert!(elf_tables_fit(&f));
    let image = load_plan(&f).unwrap();
    assert!(image.pages.is_empty());
}
