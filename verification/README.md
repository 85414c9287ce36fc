# DeepX kernel core

The rules and data structures of the DeepX x86-64 kernel, written in Verus
and proved against their contracts:

- `src/` — the library: log ring buffer and logger, console text layout and
  glyph rendering, display modes and keyboard handling, the kernel shell and
  its commands, the SMP round-robin scheduler, the physical page bitmap,
  page-table entries and mapping plans, descriptor tables (GDT, IDT), PIC and
  APIC register values, timers, ACPI table parsing, the VFS over boot modules,
  the system-call tunnel, the DXB header check, and the boot phases.
- `tests/` — concrete scenarios for each of them.
- `app/` — the kernel binary around the library: boot-loader requests, port
  and memory-mapped I/O, interrupt entry code, context switches, the frame
  buffer, and the task loops.
