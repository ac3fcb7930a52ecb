# gbemu

A DMG (monochrome Game Boy) emulator core whose logic is verified with Verus.

- `src/` is the verified library:
  - `util.rs`: bit helpers.
  - `interrupt.rs`: the interrupt sources and their jump vectors.
  - `registers.rs`: the hardware registers ($FF00-$FF26, $FF40-$FF4B, $FFFF), the timer and
    interrupt requests.
  - `memory.rs`: the address space, its model `MemoryView`, loading, reads and writes.
  - `video.rs`: decoding the background and window into a 160x144 frame of shades.
  - `ppu.rs`: scanline and mode timing, and the scaled RGBA frame handed out for display.
  - `cpu.rs`: registers, flags, ALU and the instruction interpreter, specified opcode by
    opcode in `execute`.
  - `cartridge.rs`: the cartridge header.
- `app/main.rs` is the program: command line, logging, Ctrl-C, file reading and the main loop.
- `tests/` exercise the library on concrete programs and images.
