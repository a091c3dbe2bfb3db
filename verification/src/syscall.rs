use vstd::prelude::*;
use crate::memory::pmm::{BitmapFrameAllocator, FRAME_SIZE};

verus! {

/// Bytes in the kernel stack that system calls run on.
pub const SYSCALL_STACK_SIZE: u64 = 4096 * 4;

/// Where the first `mmap` region starts in user space.
pub const USER_MMAP_BASE: u64 = 0x0000_1000_0000_0000;

/// The value a failed system call returns (-1).
pub const SYSCALL_ERROR: u64 = 0xffff_ffff_ffff_ffff;

/// System call numbers.
pub const SYS_READ: u64 = 0;
pub const SYS_WRITE: u64 = 1;
pub const SYS_OPEN: u64 = 2;
pub const SYS_MMAP: u64 = 9;
pub const SYS_MUNMAP: u64 = 11;
pub const SYS_CLONE: u64 = 56;
pub const SYS_EXIT: u64 = 60;

/// The per-CPU block that the system call entry reaches through GS: the
/// kernel stack to switch to, and the user stack saved on entry.
pub struct PerCpu {
    kernel_stack: u64,
    user_stack: u64,
}

impl PerCpu {
    pub closed spec fn spec_kernel_stack(&self) -> u64 {
        self.kernel_stack
    }

    pub closed spec fn spec_user_stack(&self) -> u64 {
        self.user_stack
    }

    /// The block for a system-call stack whose lowest byte is at
    /// `stack_bottom`: the kernel stack pointer starts at its top.
    pub fn new(stack_bottom: u64) -> (p: Self)
        requires
            stack_bottom + SYSCALL_STACK_SIZE <= u64::MAX,
        ensures
            p.spec_kernel_stack() == stack_bottom + SYSCALL_STACK_SIZE,
            p.spec_user_stack() == 0,
    {
        PerCpu { kernel_stack: stack_bottom + SYSCALL_STACK_SIZE, user_stack: 0 }
    }

    /// The kernel stack pointer loaded on entry.
    pub fn kernel_stack(&self) -> (r: u64)
        ensures
            r == self.spec_kernel_stack(),
    {
        self.kernel_stack
    }

    /// The user stack pointer saved on entry.
    pub fn user_stack(&self) -> (r: u64)
        ensures
            r == self.spec_user_stack(),
    {
        self.user_stack
    }
}

/// The user registers saved by the system call entry: `rax` holds the call
/// number, `rdi`, `rsi`, `rdx`, `r10`, `r8`, `r9` the arguments.
#[derive(Clone, Copy, Debug)]
pub struct SyscallRegs {
    pub rax: u64,
    pub rdi: u64,
    pub rsi: u64,
    pub rdx: u64,
    pub r10: u64,
    pub r8: u64,
    pub r9: u64,
    pub rsp: u64,
    pub rflags: u64,
    pub rip: u64,
}

/// What a system call comes to.
#[derive(Clone, Copy, Debug, PartialEq, Eq, Structural)]
pub enum SyscallAction {
    /// Return this value to user space.
    Return(u64),
    /// Send the `len` bytes at user address `ptr` to the serial console,
    /// then return `len`.
    WriteConsole { ptr: u64, len: u64 },
    /// Map `num_pages` fresh pages of user memory and return their start
    /// address, or -1 when that fails.
    Mmap { num_pages: u64 },
    /// The process exits with `code`; the CPU halts for good.
    Exit { code: u64 },
}

/// Pages needed to hold `size` bytes.
pub open spec fn pages_for(size: u64) -> u64 {
    ((size + 4095) / 4096) as u64
}

/// What the system call in `regs` comes to.
pub open spec fn syscall_outcome(regs: SyscallRegs) -> SyscallAction {
    if regs.rax == SYS_READ {
        SyscallAction::Return(0)
    } else if regs.rax == SYS_WRITE {
        if regs.rdi == 1 || regs.rdi == 2 {
            SyscallAction::WriteConsole { ptr: regs.rsi, len: regs.rdx }
        } else {
            SyscallAction::Return(SYSCALL_ERROR)
        }
    } else if regs.rax == SYS_MMAP {
        if regs.rdi == 0 {
            SyscallAction::Return(SYSCALL_ERROR)
        } else {
            SyscallAction::Mmap { num_pages: pages_for(regs.rdi) }
        }
    } else if regs.rax == SYS_MUNMAP {
        SyscallAction::Return(0)
    } else if regs.rax == SYS_EXIT {
        SyscallAction::Exit { code: regs.rdi }
    } else {
        SyscallAction::Return(SYSCALL_ERROR)
    }
}

/// `mmap` maps the fewest whole pages that hold the request: the pages
/// asked for cover `size` bytes, and one page fewer would not.
pub proof fn law_mmap_maps_fewest_covering_pages(regs: SyscallRegs)
    requires
        regs.rax == 9,
        regs.rdi > 0,
        regs.rdi + 4095 <= u64::MAX,
    ensures
        syscall_outcome(regs) matches SyscallAction::Mmap { num_pages } && num_pages * 4096 >= regs.rdi
            && (num_pages - 1) * 4096 < regs.rdi,
{
    let n = pages_for(regs.rdi);
    assert(n * 4096 >= regs.rdi && (n - 1) * 4096 < regs.rdi) by (nonlinear_arith)
        requires
            n == (regs.rdi + 4095) / 4096,
            regs.rdi > 0,
    ;
}

/// Decides a system call: `read` returns 0; `write` to standard output or
/// error (fd 1 or 2) goes to the console, other descriptors fail; `open`
/// fails; `mmap` of 0 bytes fails, otherwise it maps whole pages; `munmap`
/// returns 0; `clone` fails; `exit` stops; unknown numbers fail.
pub fn handle_syscall(regs: &SyscallRegs) -> (a: SyscallAction)
    requires
        regs.rax == SYS_MMAP ==> regs.rdi + 4095 <= u64::MAX,
    ensures
        a == syscall_outcome(*regs),
{
    match regs.rax {
        0 => SyscallAction::Return(0),
        1 => {
            let fd = regs.rdi;
            if fd == 1 || fd == 2 {
                SyscallAction::WriteConsole { ptr: regs.rsi, len: regs.rdx }
            } else {
                SyscallAction::Return(SYSCALL_ERROR)
            }
        },
        2 => SyscallAction::Return(SYSCALL_ERROR),
        9 => {
            let size = regs.rdi;
            if size == 0 {
                SyscallAction::Return(SYSCALL_ERROR)
            } else {
                SyscallAction::Mmap { num_pages: (size + 4095) / 4096 }
            }
        },
        11 => SyscallAction::Return(0),
        56 => SyscallAction::Return(SYSCALL_ERROR),
        60 => SyscallAction::Exit { code: regs.rdi },
        _ => SyscallAction::Return(SYSCALL_ERROR),
    }
}

/// The user address space that `mmap` hands out, growing upwards from
/// `USER_MMAP_BASE` (the address wraps around past `u64::MAX`).
pub struct MmapRegion {
    next: u64,
}

impl MmapRegion {
    /// The start of the next reservation.
    pub closed spec fn spec_next(&self) -> u64 {
        self.next
    }

    /// A region with nothing handed out yet.
    pub fn new() -> (r: Self)
        ensures
            r.spec_next() == USER_MMAP_BASE,
    {
        MmapRegion { next: USER_MMAP_BASE }
    }

    /// Reserves `num_pages` pages and returns their start.
    pub fn reserve(&mut self, num_pages: u64) -> (start: u64)
        requires
            num_pages * 4096 <= u64::MAX,
        ensures
            start == old(self).spec_next(),
            final(self).spec_next() == old(self).spec_next().wrapping_add(
                (num_pages * 4096) as u64,
            ),
    {
        let start = self.next;
        self.next = self.next.wrapping_add(num_pages * 4096);
        start
    }
}

/// Where the next reservation of a region starts once `ns[0]`, `ns[1]`,
/// ... pages have been reserved in turn, starting from `next`.
pub open spec fn next_after(next: u64, ns: Seq<u64>) -> u64
    decreases ns.len(),
{
    if ns.len() == 0 {
        next
    } else {
        next_after(next, ns.drop_last()).wrapping_add((ns.last() * 4096) as u64)
    }
}

/// The bytes that reserving `ns[0]`, `ns[1]`, ... pages takes.
pub open spec fn reserved_bytes(ns: Seq<u64>) -> int
    decreases ns.len(),
{
    if ns.len() == 0 {
        0
    } else {
        reserved_bytes(ns.drop_last()) + ns.last() * 4096
    }
}

/// A longer run of reservations takes at least as many bytes, and one more
/// reservation adds its own.
proof fn lemma_reserved_bytes_prefix(ns: Seq<u64>, i: int, j: int)
    requires
        0 <= i <= j <= ns.len(),
    ensures
        0 <= reserved_bytes(ns.take(i)) <= reserved_bytes(ns.take(j)),
        i < ns.len() ==> reserved_bytes(ns.take(i + 1)) == reserved_bytes(ns.take(i)) + ns[i] * 4096,
    decreases j,
{
    if i < ns.len() {
        assert(ns.take(i + 1).drop_last() =~= ns.take(i));
    }
    if j > 0 {
        assert(ns.take(j).drop_last() =~= ns.take(j - 1));
        if i < j {
            lemma_reserved_bytes_prefix(ns, i, j - 1);
        } else {
            lemma_reserved_bytes_prefix(ns, i - 1, j - 1);
            assert(ns.take(i).drop_last() =~= ns.take(i - 1));
        }
    }
}

/// Until the addresses wrap, the next reservation starts exactly the
/// reserved bytes above the first.
proof fn lemma_next_after_no_wrap(next: u64, ns: Seq<u64>)
    requires
        next + reserved_bytes(ns) <= u64::MAX,
    ensures
        next_after(next, ns) == next + reserved_bytes(ns),
    decreases ns.len(),
{
    if ns.len() > 0 {
        lemma_reserved_bytes_prefix(ns, ns.len() - 1, ns.len() - 1);
        assert(ns.take(ns.len() - 1) =~= ns.drop_last());
        lemma_next_after_no_wrap(next, ns.drop_last());
    }
}

/// Reservations made in turn never overlap: until the addresses wrap past
/// `u64::MAX`, each one ends no later than any later one starts.
pub proof fn law_reservations_disjoint(next: u64, ns: Seq<u64>, i: int, j: int)
    requires
        next + reserved_bytes(ns) <= u64::MAX,
        0 <= i < j < ns.len(),
    ensures
        next_after(next, ns.take(i)) + ns[i] * 4096 <= next_after(next, ns.take(j)),
{
    lemma_reserved_bytes_prefix(ns, i, j);
    lemma_reserved_bytes_prefix(ns, i + 1, j);
    lemma_reserved_bytes_prefix(ns, j, ns.len() as int);
    assert(ns.take(ns.len() as int) =~= ns);
    lemma_next_after_no_wrap(next, ns.take(i));
    lemma_next_after_no_wrap(next, ns.take(j));
}

/// A request of the `mmap` work to the page-table code, or its result.
#[derive(Clone, Copy, Debug, PartialEq, Eq, Structural)]
pub enum MmapStep {
    /// Map the page at `page` to the frame at `frame` (present, writable,
    /// user-accessible), then report whether that worked.
    MapPage { page: u64, frame: u64 },
    /// The call returns this value: the region's start, or -1.
    Finished(u64),
}

/// The work of one `mmap`: allocate a frame for each page of the reserved
/// range and have it mapped, stopping at the first failure.
pub struct MmapJob {
    start: u64,
    num_pages: u64,
    mapped: u64,
    pending: bool,
    done: bool,
}

impl MmapJob {
    pub closed spec fn spec_start(&self) -> u64 {
        self.start
    }

    pub closed spec fn spec_num_pages(&self) -> u64 {
        self.num_pages
    }

    /// Pages handed out for mapping so far.
    pub closed spec fn spec_mapped(&self) -> u64 {
        self.mapped
    }

    /// Whether a mapping request awaits its report.
    pub closed spec fn spec_pending(&self) -> bool {
        self.pending
    }

    pub closed spec fn spec_done(&self) -> bool {
        self.done
    }

    pub closed spec fn wf(&self) -> bool {
        &&& self.mapped <= self.num_pages
        &&& self.num_pages * 4096 <= u64::MAX
        &&& self.pending ==> self.mapped >= 1
    }

    /// Whether the address of the next page to map fits in 64 bits.
    pub open spec fn next_page_fits(&self) -> bool {
        self.spec_mapped() < self.spec_num_pages() ==> self.spec_start() + self.spec_mapped() * 4096
            <= u64::MAX
    }

    /// Starts an `mmap` of `num_pages` pages: reserves them in `region`.
    pub fn new(region: &mut MmapRegion, num_pages: u64) -> (job: Self)
        requires
            num_pages * 4096 <= u64::MAX,
        ensures
            job.wf(),
            job.spec_start() == old(region).spec_next(),
            job.spec_num_pages() == num_pages,
            job.spec_mapped() == 0,
            !job.spec_pending(),
            !job.spec_done(),
            final(region).spec_next() == old(region).spec_next().wrapping_add(
                (num_pages * 4096) as u64,
            ),
    {
        let start = region.reserve(num_pages);
        MmapJob { start, num_pages, mapped: 0, pending: false, done: false }
    }

    /// Tests `next_page_fits`.
    pub fn can_step(&self) -> (r: bool)
        requires
            self.wf(),
        ensures
            r == self.next_page_fits(),
    {
        if self.mapped < self.num_pages {
            assert(self.mapped * 4096 <= self.num_pages * 4096) by (nonlinear_arith)
                requires
                    self.mapped <= self.num_pages,
            ;
            self.start <= u64::MAX - self.mapped * 4096
        } else {
            true
        }
    }

    /// Takes the report `last_mapped` on the mapping asked for last (ignored
    /// when none was asked for) and returns the next request: a failed
    /// mapping ends the call with -1; when every page is mapped the call
    /// returns the start; otherwise a frame is allocated for the next page
    /// (none left ends the call with -1) and its mapping is asked for.
    pub fn step(&mut self, frames: &mut BitmapFrameAllocator, last_mapped: bool) -> (s: MmapStep)
        requires
            old(self).wf(),
            !old(self).spec_done(),
            old(self).next_page_fits(),
            old(frames).wf(),
        ensures
            final(self).wf(),
            final(frames).wf(),
            final(self).spec_start() == old(self).spec_start(),
            final(self).spec_num_pages() == old(self).spec_num_pages(),
            if old(self).spec_pending() && !last_mapped {
                &&& s == MmapStep::Finished(SYSCALL_ERROR)
                &&& final(self).spec_done()
                &&& *final(frames) == *old(frames)
            } else if old(self).spec_mapped() == old(self).spec_num_pages() {
                &&& s == MmapStep::Finished(old(self).spec_start())
                &&& final(self).spec_done()
                &&& *final(frames) == *old(frames)
            } else {
                exists|r: Option<u64>|
                    {
                        &&& BitmapFrameAllocator::allocation_step(*old(frames), *final(frames), r)
                        &&& match r {
                            None => s == MmapStep::Finished(SYSCALL_ERROR) && final(self).spec_done(),
                            Some(frame) => {
                                &&& s == (MmapStep::MapPage {
                                    page: (old(self).spec_start() + old(self).spec_mapped()
                                        * 4096) as u64,
                                    frame,
                                })
                                &&& !final(self).spec_done()
                                &&& final(self).spec_pending()
                                &&& final(self).spec_mapped() == old(self).spec_mapped() + 1
                            },
                        }
                    }
            },
    {
        if self.pending && !last_mapped {
            self.done = true;
            return MmapStep::Finished(SYSCALL_ERROR);
        }
        if self.mapped == self.num_pages {
            self.done = true;
            return MmapStep::Finished(self.start);
        }
        match frames.allocate_frame() {
            None => {
                self.done = true;
                MmapStep::Finished(SYSCALL_ERROR)
            },
            Some(frame) => {
                let page = self.start + self.mapped * 4096;
                self.mapped = self.mapped + 1;
                self.pending = true;
                MmapStep::MapPage { page, frame }
            },
        }
    }
}

} // verus!
