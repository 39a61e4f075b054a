# Turtle GBA

A Game Boy Advance emulator whose core is verified with Verus.

- `src/bus.rs`: the memory map, I/O registers, DMA and timers. Every bus
  operation is a spec function over `BusState`; `src/bus_laws.rs` states
  laws of DMA transfers and DMA nesting budgets, `src/tick_laws.rs` those of
  display timing.
- `src/cpu/`: the ARM7TDMI: ARM and THUMB instruction sets, register banking
  and the BIOS calls emulated at a high level (`system.rs`); laws of the
  processor state in `laws.rs`; `budget.rs` shows that a step's result does
  not depend on which sufficient DMA nesting budget defines it.
- `src/ppu.rs`: rendering of display modes 0, 3 and 4 with sprites,
  priorities and blending, specified pixel by pixel.
- `src/machine.rs`: running whole frames, button input, the built-in test ROM
  and loop detection for traces.
- `src/bmp.rs`, `src/disasm.rs`: screenshot encoding and the disassembler
  that turns instructions into trace text.
- `app/main.rs`: the program around the library: files, the window
  (minifb), the headless trace and the automated test walk.

Run with a ROM path, optionally `--bios <file>`, `--headless` (with `-v` for a
full trace) or `--auto-test`.
