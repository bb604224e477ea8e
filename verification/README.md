# mikan_os

The logic of a small x86-64 hobby operating system (a UEFI boot loader and a
kernel), verified with Verus.

`src/` is the verified library:

- `boot_info` — what the boot loader hands to the kernel (frame buffer, graphics mode).
- `elf` — the ELF file header layout.
- `loader` — parsing the kernel image (through goblin), the address range and
  page count of its loadable segments, and the contents of each loaded segment.
- `memory_map` — the text saved of the firmware memory map.
- `graphics` — pixel writers: where a pixel lies and which bytes it gets.
- `console` — a character grid with a cursor, line feeds and scrolling; every
  write returns the glyph operations to carry out.
- `pci` — configuration addresses, register decoding, and the bus scan as a
  state machine that asks for configuration reads.
- `kernel_lib`, `interrupt` — interrupt descriptor types.

`app/` holds what runs against the firmware and the hardware: the UEFI entry
point, file and memory I/O, port I/O, frame-buffer stores, and the kernel entry.
