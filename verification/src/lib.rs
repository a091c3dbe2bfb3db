//! Verified core logic of a small x86-64 kernel: device-driver decision
//! logic, the physical frame allocator, the syscall dispatcher, the ELF
//! loader's page plan, and the framebuffer compositor.

pub mod driver;
pub mod gpu;
pub mod input;
pub mod memory;
pub mod pci;
pub mod process;
pub mod serial;
pub mod storage;
pub mod syscall;
pub mod task;
