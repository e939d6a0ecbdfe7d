# chip8

A CHIP-8 emulator core, verified with Verus.

- `src/cpu.rs`: the machine state `CPU`, its mathematical view `CpuView`, the instruction
  fetch (`cycle`) and one method per instruction, each with a contract that gives the
  machine it leaves.
- `src/sprite.rs`: what drawing a sprite does to the screen (flip the pixel under each set
  bit, rows `display.width` pixels apart, wrap around the edges, report a collision in VF).
- `src/instruction.rs`: decoding an opcode and running it (`CPU::execute`), with the
  effect the window has to show.
- `src/display.rs`: the frame buffer `VData`.
- `src/chip8.rs`: the fixed-stack machine layout `Chip8`.
- `src/laws.rs`: properties that span instructions (call then return, drawing twice, carries
  and borrows, what instructions keep).
- `app/main.rs`: the SDL window, the event loop and reading the ROM file.
