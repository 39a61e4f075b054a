//! A Game Boy Advance emulator core: the memory bus with DMA and timers, the
//! ARM7TDMI processor, the picture processing unit, and running the machine
//! frame by frame; with BMP screenshots and an ARM disassembler for traces.
pub mod bits;
pub mod bmp;
pub mod bus;
pub mod bus_laws;
pub mod tick_laws;
pub mod machine;
pub mod cpu;
pub mod disasm;
pub mod ppu;
pub mod tile_laws;
