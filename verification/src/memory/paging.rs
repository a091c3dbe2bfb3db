use vstd::prelude::*;

verus! {

/// Size of a huge page.
pub const HUGE_PAGE_SIZE: u64 = 0x20_0000;

/// The start addresses of the 2 MiB pages that identity-map the first
/// 2 GiB: 0, 2 MiB, 4 MiB, ... below 2 GiB. Each is mapped to the frame at
/// the same address, present, writable and huge.
pub fn identity_map_2gb_pages() -> (pages: Vec<u64>)
    ensures
        pages@.len() == 1024,
        forall|i: int| 0 <= i < 1024 ==> #[trigger] pages@[i] == i * HUGE_PAGE_SIZE,
{
    let mut pages: Vec<u64> = Vec::new();
    let mut i: u64 = 0;
    while i < 1024
        invariant
            i <= 1024,
            pages@.len() == i,
            forall|j: int| 0 <= j < i ==> #[trigger] pages@[j] == j * HUGE_PAGE_SIZE,
        decreases 1024 - i,
    {
        pages.push(i * HUGE_PAGE_SIZE);
        i = i + 1;
    }
    pages
}

} // verus!
