# kernel

The core of a small x86_64 kernel, verified with Verus.

- `src/vga.rs`: the VGA text console. A `Buffer` holds the cursor, the current
  color and the 80x25 cells; printing, scrolling and clearing are specified
  over a `ScreenState` model, with laws on the cursor, scrolling and printing
  in parts.
- `src/interrupts/`: interrupt descriptors (`Entry`), the 256-entry
  `InterruptDescriptorTable`, and installing the breakpoint and double fault
  handlers.
- `src/testing.rs`: the QEMU exit codes.
- `app/`: the kernel binary. It owns the global console, serial port and
  descriptor table behind `spin` locks, copies the library's cells to VGA
  memory and its descriptors to the table loaded with `lidt`, and holds the
  exception handlers and the test harness.
