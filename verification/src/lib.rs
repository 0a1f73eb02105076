//! A small x86_64 kernel core: the VGA text-mode console, the interrupt
//! descriptor table and the QEMU exit codes, with their contracts.
pub mod interrupts;
pub mod testing;
pub mod vga;
