pub mod pmm;
pub mod paging;
