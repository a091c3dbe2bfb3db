use usya::memory::paging::identity_map_2gb_pages;
use usya::memory::pmm::{BitmapFrameAllocator, MemoryRegion, MemoryRegionKind, MAX_FRAMES};
use usya::syscall::{
    handle_syscall, MmapJob, MmapRegion, MmapStep, PerCpu, SyscallAction, SyscallRegs,
    SYSCALL_ERROR, USER_MMAP_BASE,
};
use usya::task::{Executor, ExecutorAction, Task, TaskId, TaskIdCounter};

#[test]
fn fresh_allocator_hands_out_frames_from_zero() {
    let mut a = BitmapFrameAllocator::new();
    assert_eq!(a.allocate_frame(), Some(0));
    assert_eq!(a.allocate_frame(), Some(4096));
    assert_eq!(a.allocate_frame(), Some(8192));
}

fn region(start: u64, end: u64, kind: MemoryRegionKind) -> MemoryRegion {
    MemoryRegion { start, end, kind }
}

#[test]
fn allocator_uses_only_usable_regions() {
    let mut a = BitmapFrameAllocator::new();
    let regions = vec![
        region(0, 0x9000, MemoryRegionKind::Bootloader),
        region(0xA000, 0xC800, MemoryRegionKind::Usable),
        region(0x10_0000, 0x20_0000, MemoryRegionKind::UnknownBios(2)),
    ];
    a.init(&regions);
    assert_eq!(a.allocate_frame(), Some(0xA000));
    assert_eq!(a.allocate_frame(), Some(0xB000));
    assert_eq!(a.allocate_frame(), None);
}

#[test]
fn allocator_ignores_frames_beyond_two_gib() {
    let mut a = BitmapFrameAllocator::new();
    let top = (MAX_FRAMES as u64) * 4096;
    let regions = vec![region(top - 4096, top + 0x10_0000, MemoryRegionKind::Usable)];
    a.init(&regions);
    assert_eq!(a.allocate_frame(), Some(top - 4096));
    assert_eq!(a.allocate_frame(), None);
}

#[test]
fn allocator_search_resumes_at_last_word_then_wraps() {
    let mut a = BitmapFrameAllocator::new();
    let regions = vec![
        region(0x1000, 0x2000, MemoryRegionKind::Usable),
        region(64 * 4096 * 5, 64 * 4096 * 5 + 0x2000, MemoryRegionKind::Usable),
    ];
    a.init(&regions);
    assert_eq!(a.allocate_frame(), Some(0x1000));
    assert_eq!(a.allocate_frame(), Some(64 * 4096 * 5));
    assert_eq!(a.allocate_frame(), Some(64 * 4096 * 5 + 0x1000));
    assert_eq!(a.allocate_frame(), None);
}

#[test]
fn allocator_never_hands_out_a_frame_twice() {
    let mut a = BitmapFrameAllocator::new();
    let regions = vec![region(0, 64 * 4096 * 3, MemoryRegionKind::Usable)];
    a.init(&regions);
    let mut seen = std::collections::HashSet::new();
    while let Some(addr) = a.allocate_frame() {
        assert_eq!(addr % 4096, 0);
        assert!(seen.insert(addr));
    }
    assert_eq!(seen.len(), 64 * 3);
}

#[test]
fn identity_map_covers_two_gib_in_huge_pages() {
    let pages = identity_map_2gb_pages();
    assert_eq!(pages.len(), 1024);
    assert_eq!(pages[0], 0);
    assert_eq!(pages[1], 0x20_0000);
    assert_eq!(pages[1023], 0x7FE0_0000);
}

#[test]
fn task_ids_count_up() {
    let mut ids = TaskIdCounter::new();
    let a = TaskId::new(&mut ids);
    let b = TaskId::new(&mut ids);
    assert_ne!(a, b);
    assert!(a < b);
    let t = Task::new(&mut ids);
    assert!(b < t.id());
}

#[test]
fn executor_idles_until_interrupt() {
    let mut ids = TaskIdCounter::new();
    let mut e = Executor::new();
    e.spawn(Task::new(&mut ids));
    assert_eq!(e.run(), ExecutorAction::HaltUntilInterrupt);
    assert_eq!(e.run(), ExecutorAction::HaltUntilInterrupt);
}

fn regs(rax: u64, rdi: u64, rsi: u64, rdx: u64) -> SyscallRegs {
    SyscallRegs { rax, rdi, rsi, rdx, r10: 0, r8: 0, r9: 0, rsp: 0, rflags: 0, rip: 0 }
}

#[test]
fn syscalls_are_decided_by_number() {
    assert_eq!(handle_syscall(&regs(0, 0, 0, 0)), SyscallAction::Return(0));
    assert_eq!(
        handle_syscall(&regs(1, 1, 0x4000, 19)),
        SyscallAction::WriteConsole { ptr: 0x4000, len: 19 }
    );
    assert_eq!(
        handle_syscall(&regs(1, 2, 0x10, 3)),
        SyscallAction::WriteConsole { ptr: 0x10, len: 3 }
    );
    assert_eq!(handle_syscall(&regs(1, 3, 0x10, 3)), SyscallAction::Return(SYSCALL_ERROR));
    assert_eq!(handle_syscall(&regs(2, 0, 0, 0)), SyscallAction::Return(u64::MAX));
    assert_eq!(handle_syscall(&regs(9, 0, 0, 0)), SyscallAction::Return(SYSCALL_ERROR));
    assert_eq!(handle_syscall(&regs(9, 1, 0, 0)), SyscallAction::Mmap { num_pages: 1 });
    assert_eq!(handle_syscall(&regs(9, 4096, 0, 0)), SyscallAction::Mmap { num_pages: 1 });
    assert_eq!(handle_syscall(&regs(9, 4097, 0, 0)), SyscallAction::Mmap { num_pages: 2 });
    assert_eq!(handle_syscall(&regs(11, 0x1234, 0, 0)), SyscallAction::Return(0));
    assert_eq!(handle_syscall(&regs(56, 0, 0, 0)), SyscallAction::Return(SYSCALL_ERROR));
    assert_eq!(handle_syscall(&regs(60, 7, 0, 0)), SyscallAction::Exit { code: 7 });
    assert_eq!(handle_syscall(&regs(999, 0, 0, 0)), SyscallAction::Return(SYSCALL_ERROR));
}

#[test]
fn mmap_regions_follow_each_other() {
    let mut region = MmapRegion::new();
    assert_eq!(region.reserve(2), USER_MMAP_BASE);
    assert_eq!(region.reserve(1), USER_MMAP_BASE + 2 * 4096);
    assert_eq!(region.reserve(0), USER_MMAP_BASE + 3 * 4096);
}

fn run_mmap(job: &mut MmapJob, frames: &mut BitmapFrameAllocator, map_ok: bool) -> (u64, Vec<(u64, u64)>) {
    let mut maps = Vec::new();
    let mut last = true;
    loop {
        assert!(job.can_step());
        match job.step(frames, last) {
            MmapStep::MapPage { page, frame } => {
                maps.push((page, frame));
                last = map_ok;
            }
            MmapStep::Finished(r) => return (r, maps),
        }
    }
}

#[test]
fn mmap_maps_one_fresh_frame_per_page() {
    let mut region = MmapRegion::new();
    let mut frames = BitmapFrameAllocator::new();
    let mut job = MmapJob::new(&mut region, 3);
    let (r, maps) = run_mmap(&mut job, &mut frames, true);
    assert_eq!(r, USER_MMAP_BASE);
    assert_eq!(
        maps,
        vec![
            (USER_MMAP_BASE, 0),
            (USER_MMAP_BASE + 4096, 4096),
            (USER_MMAP_BASE + 8192, 8192),
        ]
    );
}

#[test]
fn mmap_fails_when_mapping_fails() {
    let mut region = MmapRegion::new();
    let mut frames = BitmapFrameAllocator::new();
    let mut job = MmapJob::new(&mut region, 3);
    let (r, maps) = run_mmap(&mut job, &mut frames, false);
    assert_eq!(r, SYSCALL_ERROR);
    assert_eq!(maps.len(), 1);
    // The region stays reserved.
    assert_eq!(region.reserve(1), USER_MMAP_BASE + 3 * 4096);
}

#[test]
fn mmap_fails_when_frames_run_out() {
    let mut region = MmapRegion::new();
    let mut frames = BitmapFrameAllocator::new();
    frames.init(&vec![MemoryRegion { start: 0, end: 4096, kind: MemoryRegionKind::Usable }]);
    let mut job = MmapJob::new(&mut region, 2);
    let (r, maps) = run_mmap(&mut job, &mut frames, true);
    assert_eq!(r, SYSCALL_ERROR);
    assert_eq!(maps, vec![(USER_MMAP_BASE, 0)]);
}

#[test]
fn per_cpu_block_points_at_stack_top() {
    let p = PerCpu::new(0x10_0000);
    assert_eq!(p.kernel_stack(), 0x10_0000 + 16384);
    assert_eq!(p.user_stack(), 0);
}

#[test]
fn reservations_made_in_turn_do_not_overlap() {
    let mut region = MmapRegion::new();
    let sizes = [3u64, 1, 4, 1, 5];
    let starts: Vec<u64> = sizes.iter().map(|&n| region.reserve(n)).collect();
    for i in 0..sizes.len() {
        for j in i + 1..sizes.len() {
            assert!(starts[i] + sizes[i] * 4096 <= starts[j]);
        }
    }
}
