use vstd::prelude::*;

verus! {

/// Frames tracked by the allocator: 2 GiB of physical memory.
pub const MAX_FRAMES: usize = 524_288;

/// Number of 64-bit words in the bitmap.
pub const BITMAP_SIZE: usize = 8192;

/// Size of a physical frame in bytes.
pub const FRAME_SIZE: u64 = 4096;

/// The kind of a region in the boot memory map.
#[derive(Clone, Copy, PartialEq, Eq, Structural)]
pub enum MemoryRegionKind {
    /// Conventional memory the kernel may use.
    Usable,
    /// Memory the bootloader's own mappings live in.
    Bootloader,
    /// A region the UEFI firmware reported with this memory type.
    UnknownUefi(u32),
    /// A region the BIOS reported with this E820 type.
    UnknownBios(u32),
}

/// A region of the boot memory map: `start..end` in bytes.
#[derive(Clone, Copy)]
pub struct MemoryRegion {
    pub start: u64,
    pub end: u64,
    pub kind: MemoryRegionKind,
}

/// Bit `b` of `w`, as the bitmap reads it: `true` means "in use".
pub open spec fn bit_set(w: u64, b: u64) -> bool {
    (w >> b) & 1u64 == 1u64
}

/// Whether `r` is usable and covers frame `f`, counting whole frames from
/// `start / 4096` up to (not including) `end / 4096`.
pub open spec fn region_frees(r: MemoryRegion, f: int) -> bool {
    r.kind == MemoryRegionKind::Usable && r.start / 4096 <= f < r.end / 4096
}

/// Whether frame `f` lies in a usable region of `regions`.
pub open spec fn frame_in_usable_region(regions: Seq<MemoryRegion>, f: int) -> bool {
    exists|k: int| 0 <= k < regions.len() && region_frees(#[trigger] regions[k], f)
}

/// Position of frame `f` in the allocator's search order, which starts at
/// word `next` and wraps around to word 0.
pub open spec fn search_rank(f: int, next: int) -> int {
    if f / 64 >= next {
        f - next * 64
    } else {
        f + MAX_FRAMES - next * 64
    }
}

/// A physical frame allocator that keeps one bit per 4 KiB frame
/// (1 = in use, 0 = free) and remembers the word where the last frame
/// was found.
pub struct BitmapFrameAllocator {
    bitmap: Vec<u64>,
    next_free: usize,
}

proof fn lemma_set_bit(w: u64, b: u64)
    requires
        b < 64,
    ensures
        bit_set(w | (1u64 << b), b),
        forall|j: u64| j < 64 && j != b ==> #[trigger] bit_set(w | (1u64 << b), j) == bit_set(w, j),
{
    assert(((w | (1u64 << b)) >> b) & 1u64 == 1u64) by (bit_vector)
        requires
            b < 64,
    ;
    assert forall|j: u64| j < 64 && j != b implies #[trigger] bit_set(w | (1u64 << b), j) == bit_set(
        w,
        j,
    ) by {
        assert(((w | (1u64 << b)) >> j) & 1u64 == (w >> j) & 1u64) by (bit_vector)
            requires
                b < 64,
                j < 64,
                j != b,
        ;
    }
}

proof fn lemma_clear_bit(w: u64, b: u64)
    requires
        b < 64,
    ensures
        !bit_set(w & !(1u64 << b), b),
        forall|j: u64| j < 64 && j != b ==> #[trigger] bit_set(w & !(1u64 << b), j) == bit_set(w, j),
{
    assert(((w & !(1u64 << b)) >> b) & 1u64 == 0u64) by (bit_vector)
        requires
            b < 64,
    ;
    assert forall|j: u64| j < 64 && j != b implies #[trigger] bit_set(w & !(1u64 << b), j)
        == bit_set(w, j) by {
        assert(((w & !(1u64 << b)) >> j) & 1u64 == (w >> j) & 1u64) by (bit_vector)
            requires
                b < 64,
                j < 64,
                j != b,
        ;
    }
}

proof fn lemma_full_word(w: u64)
    requires
        w == 0xffff_ffff_ffff_ffffu64,
    ensures
        forall|j: u64| j < 64 ==> #[trigger] bit_set(w, j),
{
    assert forall|j: u64| j < 64 implies #[trigger] bit_set(w, j) by {
        assert((0xffff_ffff_ffff_ffffu64 >> j) & 1u64 == 1u64) by (bit_vector)
            requires
                j < 64,
        ;
    }
}

proof fn lemma_zero_word()
    ensures
        forall|j: u64| j < 64 ==> !#[trigger] bit_set(0u64, j),
{
    assert forall|j: u64| j < 64 implies !#[trigger] bit_set(0u64, j) by {
        assert((0u64 >> j) & 1u64 == 0u64) by (bit_vector);
    }
}

proof fn lemma_frame_split(f: int)
    requires
        0 <= f < MAX_FRAMES,
    ensures
        0 <= f / 64 < BITMAP_SIZE,
        0 <= f % 64 < 64,
        f == (f / 64) * 64 + f % 64,
{
}

impl BitmapFrameAllocator {
    /// The bitmap has its `BITMAP_SIZE` words and the search cursor points
    /// into it.
    pub closed spec fn wf(&self) -> bool {
        &&& self.bitmap.len() == BITMAP_SIZE
        &&& self.next_free < BITMAP_SIZE
    }

    /// Whether frame `f` is marked in use.
    pub closed spec fn used(&self, f: int) -> bool {
        bit_set(self.bitmap@[f / 64], (f % 64) as u64)
    }

    /// The word where the next search starts.
    pub closed spec fn cursor(&self) -> int {
        self.next_free as int
    }

    /// An allocator in which every frame is free.
    pub fn new() -> (r: Self)
        ensures
            r.wf(),
            r.cursor() == 0,
            forall|f: int| 0 <= f < MAX_FRAMES ==> !#[trigger] r.used(f),
    {
        let mut bitmap: Vec<u64> = Vec::new();
        let mut i: usize = 0;
        while i < BITMAP_SIZE
            invariant
                i <= BITMAP_SIZE,
                bitmap.len() == i,
                forall|k: int| 0 <= k < i ==> bitmap@[k] == 0u64,
            decreases BITMAP_SIZE - i,
        {
            bitmap.push(0);
            i = i + 1;
        }
        let r = BitmapFrameAllocator { bitmap, next_free: 0 };
        proof {
            lemma_zero_word();
            assert forall|f: int| 0 <= f < MAX_FRAMES implies !#[trigger] r.used(f) by {
                lemma_frame_split(f);
            }
        }
        r
    }

    /// What one allocation does: `r` is `None` exactly when every frame was
    /// in use (nothing changes then); otherwise `r` is the address of the
    /// free frame that comes first in search order, which is now in use, no
    /// other frame changed, and the cursor moved to its word.
    pub open spec fn allocation_step(before: Self, after: Self, r: Option<u64>) -> bool {
        match r {
            None => {
                &&& forall|f: int| 0 <= f < MAX_FRAMES ==> #[trigger] before.used(f)
                &&& after == before
            },
            Some(addr) => {
                let frame = addr / FRAME_SIZE;
                &&& addr % FRAME_SIZE == 0
                &&& frame < MAX_FRAMES
                &&& !before.used(frame as int)
                &&& after.used(frame as int)
                &&& forall|f: int|
                    0 <= f < MAX_FRAMES && f != frame ==> #[trigger] after.used(f) == before.used(f)
                &&& after.cursor() == frame / 64
                &&& forall|f: int|
                    0 <= f < MAX_FRAMES && !before.used(f) ==> search_rank(
                        frame as int,
                        before.cursor(),
                    ) <= #[trigger] search_rank(f, before.cursor())
            },
        }
    }

    /// Marks every frame in use, then frees the frames of each usable
    /// region of the boot memory map that lie below `MAX_FRAMES`.
    pub fn init(&mut self, memory_regions: &Vec<MemoryRegion>)
        requires
            old(self).wf(),
        ensures
            final(self).wf(),
            final(self).cursor() == old(self).cursor(),
            forall|f: int|
                0 <= f < MAX_FRAMES ==> #[trigger] final(self).used(f) == !frame_in_usable_region(
                    memory_regions@,
                    f,
                ),
    {
        let mut i: usize = 0;
        while i < BITMAP_SIZE
            invariant
                i <= BITMAP_SIZE,
                self.wf(),
                self.cursor() == old(self).cursor(),
                forall|k: int| 0 <= k < i ==> self.bitmap@[k] == 0xffff_ffff_ffff_ffffu64,
            decreases BITMAP_SIZE - i,
        {
            self.bitmap.set(i, !0u64);
            assert(!0u64 == 0xffff_ffff_ffff_ffffu64) by (bit_vector);
            i = i + 1;
        }
        proof {
            assert forall|f: int| 0 <= f < MAX_FRAMES implies #[trigger] self.used(f) by {
                lemma_frame_split(f);
                lemma_full_word(self.bitmap@[f / 64]);
            }
        }
        let mut k: usize = 0;
        while k < memory_regions.len()
            invariant
                k <= memory_regions.len(),
                self.wf(),
                self.cursor() == old(self).cursor(),
                forall|f: int|
                    0 <= f < MAX_FRAMES ==> #[trigger] self.used(f) == !frame_in_usable_region(
                        memory_regions@.take(k as int),
                        f,
                    ),
            decreases memory_regions.len() - k,
        {
            let region = memory_regions[k];
            let ghost before = memory_regions@.take(k as int);
            let ghost after = memory_regions@.take(k + 1);
            proof {
                assert forall|f: int| #[trigger] frame_in_usable_region(after, f) == (
                frame_in_usable_region(before, f) || region_frees(region, f)) by {
                    if frame_in_usable_region(after, f) {
                        let j = choose|j: int| 0 <= j < after.len() && region_frees(after[j], f);
                        if j < k {
                            assert(before[j] == after[j]);
                        }
                    }
                    if frame_in_usable_region(before, f) {
                        let j = choose|j: int| 0 <= j < before.len() && region_frees(before[j], f);
                        assert(before[j] == after[j]);
                    }
                    if region_frees(region, f) {
                        assert(after[k as int] == region);
                    }
                }
            }
            if region.kind == MemoryRegionKind::Usable {
                let start_frame = region.start / 4096;
                let end_frame = region.end / 4096;
                let hi = if end_frame < MAX_FRAMES as u64 { end_frame } else { MAX_FRAMES as u64 };
                if start_frame < hi {
                    let mut frame: usize = start_frame as usize;
                    while frame < hi as usize
                        invariant
                            start_frame <= frame <= hi <= MAX_FRAMES,
                            hi <= end_frame,
                            region.kind == MemoryRegionKind::Usable,
                            start_frame == region.start / 4096,
                            end_frame == region.end / 4096,
                            self.wf(),
                            self.cursor() == old(self).cursor(),
                            forall|f: int|
                                0 <= f < MAX_FRAMES ==> #[trigger] self.used(f) == !(
                                frame_in_usable_region(before, f) || (start_frame <= f < frame)),
                        decreases hi - frame,
                    {
                        self.mark_free(frame);
                        frame = frame + 1;
                    }
                }
            }
            k = k + 1;
        }
        proof {
            assert(memory_regions@.take(memory_regions.len() as int) =~= memory_regions@);
        }
    }

    /// Claims the lowest free frame of word `i`, which holds one.
    fn take_from_word(&mut self, i: usize) -> (frame: usize)
        requires
            old(self).wf(),
            i < BITMAP_SIZE,
            old(self).bitmap@[i as int] != 0xffff_ffff_ffff_ffffu64,
        ensures
            final(self).wf(),
            final(self).cursor() == i,
            frame / 64 == i,
            frame < MAX_FRAMES,
            !old(self).used(frame as int),
            final(self).used(frame as int),
            forall|f: int| i * 64 <= f < frame ==> #[trigger] old(self).used(f),
            forall|f: int|
                0 <= f < MAX_FRAMES && f != frame ==> #[trigger] final(self).used(f) == old(
                    self,
                ).used(f),
    {
        let chunk = self.bitmap[i];
        proof {
            vstd::std_specs::bits::axiom_u64_trailing_ones(chunk);
        }
        let bit = chunk.trailing_ones() as usize;
        let frame = i * 64 + bit;
        proof {
            assert(frame / 64 == i);
            assert(frame % 64 == bit);
            assert forall|f: int| i * 64 <= f < frame implies #[trigger] old(self).used(f) by {
                assert(f / 64 == i);
                assert((f % 64) < bit);
            }
        }
        self.mark_used(frame);
        let ghost marked = *self;
        self.next_free = i;
        assert(forall|f: int| #[trigger] self.used(f) == marked.used(f));
        frame
    }

    /// Allocates a free frame and returns its physical start address.
    ///
    /// The search scans the bitmap word by word from the cursor to the end,
    /// then from the start up to the cursor, and takes the lowest free frame
    /// of the first word that has one; the cursor moves to that word.
    /// `None` when every frame is in use.
    pub fn allocate_frame(&mut self) -> (r: Option<u64>)
        requires
            old(self).wf(),
        ensures
            final(self).wf(),
            Self::allocation_step(*old(self), *final(self), r),
    {
        let ghost nf = self.next_free as int;
        let mut i: usize = self.next_free;
        while i < BITMAP_SIZE
            invariant
                nf <= i <= BITMAP_SIZE,
                nf == old(self).cursor(),
                *self == *old(self),
                self.wf(),
                forall|f: int| nf * 64 <= f < i * 64 ==> #[trigger] self.used(f),
            decreases BITMAP_SIZE - i,
        {
            let chunk = self.bitmap[i];
            if chunk != !0u64 {
                assert(!0u64 == 0xffff_ffff_ffff_ffffu64) by (bit_vector);
                let frame = self.take_from_word(i);
                proof {
                    assert forall|f: int|
                        0 <= f < MAX_FRAMES && !old(self).used(f) implies search_rank(
                        frame as int,
                        nf,
                    ) <= #[trigger] search_rank(f, nf) by {
                        lemma_frame_split(f);
                    }
                }
                return Some((frame as u64) * FRAME_SIZE);
            }
            proof {
                assert(!0u64 == 0xffff_ffff_ffff_ffffu64) by (bit_vector);
                lemma_full_word(chunk);
                assert forall|f: int| nf * 64 <= f < (i + 1) * 64 implies #[trigger] self.used(f) by {
                    if f >= i * 64 {
                        assert(f / 64 == i);
                    }
                }
            }
            i = i + 1;
        }
        let mut i: usize = 0;
        while i < self.next_free
            invariant
                0 <= i <= nf,
                nf == old(self).cursor(),
                *self == *old(self),
                self.wf(),
                forall|f: int| nf * 64 <= f < MAX_FRAMES ==> #[trigger] self.used(f),
                forall|f: int| 0 <= f < i * 64 ==> #[trigger] self.used(f),
            decreases nf - i,
        {
            let chunk = self.bitmap[i];
            if chunk != !0u64 {
                assert(!0u64 == 0xffff_ffff_ffff_ffffu64) by (bit_vector);
                let frame = self.take_from_word(i);
                proof {
                    assert forall|f: int|
                        0 <= f < MAX_FRAMES && !old(self).used(f) implies search_rank(
                        frame as int,
                        nf,
                    ) <= #[trigger] search_rank(f, nf) by {
                        lemma_frame_split(f);
                    }
                }
                return Some((frame as u64) * FRAME_SIZE);
            }
            proof {
                assert(!0u64 == 0xffff_ffff_ffff_ffffu64) by (bit_vector);
                lemma_full_word(chunk);
                assert forall|f: int| 0 <= f < (i + 1) * 64 implies #[trigger] self.used(f) by {
                    if f >= i * 64 {
                        assert(f / 64 == i);
                    }
                }
            }
            i = i + 1;
        }
        None
    }

    /// A frame handed out by one allocation is not handed out by the next.
    pub proof fn law_no_double_allocation(
        s0: Self,
        s1: Self,
        s2: Self,
        a1: u64,
        a2: u64,
    )
        requires
            Self::allocation_step(s0, s1, Some(a1)),
            Self::allocation_step(s1, s2, Some(a2)),
        ensures
            a1 != a2,
    {
    }

    /// After `init`, an allocation only hands out a frame of a usable region
    /// of the memory map.
    pub proof fn law_allocates_usable_frames(
        s0: Self,
        s1: Self,
        regions: Seq<MemoryRegion>,
        addr: u64,
    )
        requires
            forall|f: int|
                0 <= f < MAX_FRAMES ==> #[trigger] s0.used(f) == !frame_in_usable_region(
                    regions,
                    f,
                ),
            Self::allocation_step(s0, s1, Some(addr)),
        ensures
            frame_in_usable_region(regions, (addr / FRAME_SIZE) as int),
    {
    }

    /// After `init`, a frame is free exactly when a region of kind `Usable`
    /// covers it (from `start / 4096` up to `end / 4096`); a frame that only
    /// bootloader, UEFI or BIOS regions cover, or none, stays in use.
    pub proof fn law_init_frees_only_usable_frames(s: Self, regions: Seq<MemoryRegion>, f: int)
        requires
            forall|g: int|
                0 <= g < MAX_FRAMES ==> #[trigger] s.used(g) == !frame_in_usable_region(
                    regions,
                    g,
                ),
            0 <= f < MAX_FRAMES,
        ensures
            !s.used(f) <==> exists|k: int|
                0 <= k < regions.len() && (#[trigger] regions[k]).kind is Usable && regions[k].start
                    / 4096 <= f < regions[k].end / 4096,
    {
        assert(s.used(f) == !frame_in_usable_region(regions, f));
        if frame_in_usable_region(regions, f) {
            let k = choose|k: int| 0 <= k < regions.len() && region_frees(#[trigger] regions[k], f);
            assert(regions[k].kind is Usable);
        }
        if exists|k: int|
            0 <= k < regions.len() && (#[trigger] regions[k]).kind is Usable && regions[k].start
                / 4096 <= f < regions[k].end / 4096 {
            let k = choose|k: int|
                0 <= k < regions.len() && (#[trigger] regions[k]).kind is Usable && regions[k].start
                    / 4096 <= f < regions[k].end / 4096;
            assert(region_frees(regions[k], f));
        }
    }

    /// The search goes upwards from the cursor's word and wraps around: an
    /// allocation hands out the lowest free frame at or above the first
    /// frame of the cursor's word, and only when there is none the lowest
    /// free frame below it.
    pub proof fn law_allocates_lowest_free_from_cursor(s0: Self, s1: Self, addr: u64, g: int)
        requires
            s0.wf(),
            Self::allocation_step(s0, s1, Some(addr)),
            0 <= g < MAX_FRAMES,
            !s0.used(g),
        ensures
            ({
                let frame = (addr / FRAME_SIZE) as int;
                let first = s0.cursor() * 64;
                &&& g >= first ==> first <= frame <= g
                &&& frame < first ==> g < first && frame <= g
            }),
    {
        let frame = (addr / FRAME_SIZE) as int;
        assert(search_rank(frame, s0.cursor()) <= search_rank(g, s0.cursor()));
        assert(s0.cursor() < BITMAP_SIZE);
        assert(g / 64 >= s0.cursor() <==> g >= s0.cursor() * 64);
        assert(frame / 64 >= s0.cursor() <==> frame >= s0.cursor() * 64);
    }

    /// Marks `frame` free.
    fn mark_free(&mut self, frame: usize)
        requires
            old(self).wf(),
            frame < MAX_FRAMES,
        ensures
            final(self).wf(),
            final(self).cursor() == old(self).cursor(),
            !final(self).used(frame as int),
            forall|f: int|
                0 <= f < MAX_FRAMES && f != frame ==> #[trigger] final(self).used(f) == old(
                    self,
                ).used(f),
    {
        let index = frame / 64;
        let bit = frame % 64;
        let w = self.bitmap[index];
        self.bitmap.set(index, w & !(1u64 << (bit as u64)));
        proof {
            lemma_clear_bit(w, bit as u64);
            assert forall|f: int| 0 <= f < MAX_FRAMES && f != frame implies #[trigger] self.used(f)
                == old(self).used(f) by {
                lemma_frame_split(f);
                if f / 64 == index as int {
                    assert((f % 64) as u64 != bit as u64);
                }
            }
        }
    }

    /// Marks `frame` in use.
    fn mark_used(&mut self, frame: usize)
        requires
            old(self).wf(),
            frame < MAX_FRAMES,
        ensures
            final(self).wf(),
            final(self).cursor() == old(self).cursor(),
            final(self).used(frame as int),
            forall|f: int|
                0 <= f < MAX_FRAMES && f != frame ==> #[trigger] final(self).used(f) == old(
                    self,
                ).used(f),
    {
        let index = frame / 64;
        let bit = frame % 64;
        let w = self.bitmap[index];
        self.bitmap.set(index, w | (1u64 << (bit as u64)));
        proof {
            lemma_set_bit(w, bit as u64);
            assert forall|f: int| 0 <= f < MAX_FRAMES && f != frame implies #[trigger] self.used(f)
                == old(self).used(f) by {
                lemma_frame_split(f);
                if f / 64 == index as int {
                    assert((f % 64) as u64 != bit as u64);
                }
            }
        }
    }
}

} // verus!
