# usya

The logic of a small x86-64 kernel (the USYA Nano-Core), written in Verus
and proved against its contracts.

- `src/` is the verified library: the keyboard ring buffer and scancode
  table, the PS/2 mouse packet decoder and its bring-up state machine, the
  bitmap physical frame allocator, identity-map page planning, PCI
  configuration addressing and bus scanning, the NVMe controller bring-up as
  a state machine, the 16550 serial line set-up and byte stream, the task
  executor, the system call decoder and the `mmap` page-mapping job, the ELF
  program loader plan, and the frame-buffer compositor with its drawing
  primitives. Laws that span several calls are public proof functions whose
  names start with `law_`.
- `app/` is the kernel itself: the boot entry point, port and MMIO access,
  the GDT and MSR set-up, page tables, and the loops that run the library's
  state machines against the hardware.
- `tests/` runs the library on concrete values.
