# ku

The common library of a small x86-64 kernel and its user space, verified with Verus.

- `src/` is the verified library: virtual and physical addresses, pages, frames and
  blocks of them; page table entries; the bookkeeping of the memory allocators (fixed size
  classes over slabs of a quarry, bitmaps, statistics, the decisions of the dispatcher and
  of the page allocator); an LRU cache; the decisions of the log collector and the log
  record metadata; process identifiers, system call numbers, trap information, flags
  registers and the ELF segment loader; stack trace steps; the bookkeeping of the ring
  buffer of a pipe; and time keeping by correlating the time stamp counter with clocks.
- `tests/` runs the library on concrete values.
- `app/` is the part that touches the machine and the outside crates' traits: registers,
  memory copies, global pointers, the global allocator with its locks, the `tracing`
  subscriber, ELF parsing and conversions to `chrono` and floating point.
