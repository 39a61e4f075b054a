//! The memory bus: routes every CPU access to the right memory region or
//! hardware register, runs DMA transfers, and advances display timing and
//! the hardware timers.
//!
//! Memory map:
//!
//!   0x00000000 - 0x00003FFF  BIOS (16 KB, read-only)
//!   0x02000000 - 0x02FFFFFF  EWRAM (256 KB, mirrored)
//!   0x03000000 - 0x03FFFFFF  IWRAM (32 KB, mirrored)
//!   0x04000000 - 0x040003FE  I/O registers
//!   0x05000000 - 0x05FFFFFF  Palette RAM (1 KB, mirrored)
//!   0x06000000 - 0x06FFFFFF  VRAM (96 KB, mirrored in 128 KB blocks)
//!   0x07000000 - 0x07FFFFFF  OAM (1 KB, mirrored)
//!   0x08000000 - 0x0DFFFFFF  Game Pak ROM (read-only, up to 32 MB, three mirrors)
//!
//! Every transition of the bus is given by a spec function over [`BusState`].
//! A write may start a DMA transfer, whose own writes may start further
//! transfers; the `_f` spec functions therefore carry a nesting budget and
//! yield `None` when the budget runs out or when the transfer would overflow an
//! address computation. An operation is defined exactly when some budget makes
//! it `Some`, and the public functions require that.
use vstd::prelude::*;

verus! {

/// Cycles the display needs for one full frame (228 scanlines of 1232 cycles).
pub const CYCLES_PER_FRAME: u32 = 280_896;

/// One of the four DMA channels.
#[derive(Clone, Copy)]
pub struct DmaChannel {
    /// Source address as latched on enable.
    pub sad: u32,
    /// Destination address as latched on enable.
    pub dad: u32,
    /// Unit count as latched on enable.
    pub count: u16,
    /// Control register (CNT_H).
    pub control: u16,
    /// Running source address, kept between repeated transfers.
    pub internal_sad: u32,
    /// Running destination address, kept between repeated transfers.
    pub internal_dad: u32,
}

/// One of the four hardware timers.
#[derive(Clone, Copy)]
pub struct Timer {
    /// Current 16-bit count.
    pub counter: u16,
    /// Value loaded on enable and after each overflow.
    pub reload: u16,
    /// Cycles accumulated toward the next prescaled tick.
    pub prescaler_counter: u32,
}

pub struct Bus {
    pub bios: Vec<u8>,
    pub ewram: Vec<u8>,
    pub iwram: Vec<u8>,
    pub io: Vec<u8>,
    pub palette: Vec<u8>,
    pub vram: Vec<u8>,
    pub oam: Vec<u8>,
    pub rom: Vec<u8>,
    /// Cycle counter that drives display timing.
    pub cycles: u32,
    /// KEYINPUT register: active-low button state.
    pub keyinput: u16,
    pub dma: [DmaChannel; 4],
    pub timers: [Timer; 4],
}

/// The mathematical value of a [`Bus`].
#[verifier::ext_equal]
pub struct BusState {
    pub bios: Seq<u8>,
    pub ewram: Seq<u8>,
    pub iwram: Seq<u8>,
    pub io: Seq<u8>,
    pub palette: Seq<u8>,
    pub vram: Seq<u8>,
    pub oam: Seq<u8>,
    pub rom: Seq<u8>,
    pub cycles: u32,
    pub keyinput: u16,
    pub dma: Seq<DmaChannel>,
    pub timers: Seq<Timer>,
}

impl View for Bus {
    type V = BusState;

    open spec fn view(&self) -> BusState {
        BusState {
            bios: self.bios@,
            ewram: self.ewram@,
            iwram: self.iwram@,
            io: self.io@,
            palette: self.palette@,
            vram: self.vram@,
            oam: self.oam@,
            rom: self.rom@,
            cycles: self.cycles,
            keyinput: self.keyinput,
            dma: self.dma@,
            timers: self.timers@,
        }
    }
}

// ---------------------------------------------------------------------------
// Address decoding
// ---------------------------------------------------------------------------

pub open spec fn in_bios(addr: u32) -> bool {
    addr <= 0x3FFF
}

pub open spec fn in_ewram(addr: u32) -> bool {
    0x0200_0000 <= addr <= 0x02FF_FFFF
}

pub open spec fn in_iwram(addr: u32) -> bool {
    0x0300_0000 <= addr <= 0x03FF_FFFF
}

pub open spec fn in_io(addr: u32) -> bool {
    0x0400_0000 <= addr <= 0x0400_03FE
}

pub open spec fn in_palette(addr: u32) -> bool {
    0x0500_0000 <= addr <= 0x05FF_FFFF
}

pub open spec fn in_vram(addr: u32) -> bool {
    0x0600_0000 <= addr <= 0x06FF_FFFF
}

pub open spec fn in_oam(addr: u32) -> bool {
    0x0700_0000 <= addr <= 0x07FF_FFFF
}

pub open spec fn in_rom(addr: u32) -> bool {
    0x0800_0000 <= addr <= 0x0DFF_FFFF
}

/// The writable memory regions (not BIOS, I/O, ROM or unmapped space).
pub open spec fn in_ram(addr: u32) -> bool {
    in_ewram(addr) || in_iwram(addr) || in_palette(addr) || in_vram(addr) || in_oam(addr)
}

/// VRAM is 96 KB mirrored in 128 KB blocks; the upper 32 KB of each block
/// repeats the 32 KB below it.
pub open spec fn vram_index(addr: u32) -> int {
    let o = addr % 0x20000;
    if o >= 0x18000 {
        o - 0x8000
    } else {
        o as int
    }
}

/// The storage cell an address of a RAM region names: region number and index.
pub open spec fn ram_cell(addr: u32) -> (int, int) {
    if in_ewram(addr) {
        (0, (addr % 0x40000) as int)
    } else if in_iwram(addr) {
        (1, (addr % 0x8000) as int)
    } else if in_palette(addr) {
        (2, (addr % 0x400) as int)
    } else if in_vram(addr) {
        (3, vram_index(addr))
    } else {
        (4, (addr % 0x400) as int)
    }
}

/// Little-endian assembly of a 32-bit value from four bytes.
pub open spec fn le32(b0: u8, b1: u8, b2: u8, b3: u8) -> u32 {
    (b0 as u32) | ((b1 as u32) << 8u32) | ((b2 as u32) << 16u32) | ((b3 as u32) << 24u32)
}

/// Little-endian assembly of a 16-bit value from two bytes.
pub open spec fn le16(b0: u8, b1: u8) -> u16 {
    (b0 as u16) | ((b1 as u16) << 8u16)
}

/// I/O offsets of the live timer counters (read) and reload values (write).
pub open spec fn is_timer_data(off: int) -> bool {
    0x100 <= off < 0x110 && (off - 0x100) % 4 < 2
}

/// I/O offsets of the timer control registers.
pub open spec fn is_timer_control(off: int) -> bool {
    0x100 <= off < 0x110 && (off - 0x100) % 4 == 2
}

/// I/O offsets of the high byte of a DMA channel's control register.
pub open spec fn is_dma_control_high(off: int) -> bool {
    0xBB <= off <= 0xDF && (off - 0xBB) % 12 == 0
}

// ---------------------------------------------------------------------------
// DMA control fields
// ---------------------------------------------------------------------------

pub open spec fn dma_enabled(control: u16) -> bool {
    control & 0x8000 != 0
}

pub open spec fn dma_transfer_32(control: u16) -> bool {
    control & 0x0400 != 0
}

pub open spec fn dma_start_timing(control: u16) -> u16 {
    (control >> 12u16) & 3
}

pub open spec fn dma_dest_control(control: u16) -> u16 {
    (control >> 5u16) & 3
}

pub open spec fn dma_src_control(control: u16) -> u16 {
    (control >> 7u16) & 3
}

pub open spec fn dma_repeat(control: u16) -> bool {
    control & 0x0200 != 0
}

/// Units moved by one transfer: a count of 0 means the channel's maximum.
pub open spec fn dma_unit_count(ch: int, count: u16) -> nat {
    if count == 0 {
        if ch == 3 {
            0x10000
        } else {
            0x4000
        }
    } else {
        count as nat
    }
}

/// Source address after one unit: increment, decrement, or fixed.
pub open spec fn dma_next_src(src_control: u16, src: u32, step: u32) -> u32 {
    if src_control == 0 {
        vstd::wrapping::u32_specs::wrapping_add(src, step)
    } else if src_control == 1 {
        vstd::wrapping::u32_specs::wrapping_sub(src, step)
    } else {
        src
    }
}

/// Destination address after one unit: increment (also for increment/reload),
/// decrement, or fixed.
pub open spec fn dma_next_dst(dst_control: u16, dst: u32, step: u32) -> u32 {
    if dst_control == 0 || dst_control == 3 {
        vstd::wrapping::u32_specs::wrapping_add(dst, step)
    } else if dst_control == 1 {
        vstd::wrapping::u32_specs::wrapping_sub(dst, step)
    } else {
        dst
    }
}

/// Timer prescaler divider selected by the low two control bits.
pub open spec fn prescaler_divider(sel: u8) -> u32 {
    if sel == 0 {
        1
    } else if sel == 1 {
        64
    } else if sel == 2 {
        256
    } else {
        1024
    }
}

impl DmaChannel {
    pub open spec fn zeroed() -> DmaChannel {
        DmaChannel { sad: 0, dad: 0, count: 0, control: 0, internal_sad: 0, internal_dad: 0 }
    }

    fn new() -> (d: Self)
        ensures
            d == DmaChannel::zeroed(),
    {
        DmaChannel { sad: 0, dad: 0, count: 0, control: 0, internal_sad: 0, internal_dad: 0 }
    }

    fn enabled(&self) -> (b: bool)
        ensures
            b == dma_enabled(self.control),
    {
        self.control & 0x8000 != 0
    }

    fn transfer_32bit(&self) -> (b: bool)
        ensures
            b == dma_transfer_32(self.control),
    {
        self.control & 0x0400 != 0
    }

    fn start_timing(&self) -> (t: u16)
        ensures
            t == dma_start_timing(self.control),
    {
        (self.control >> 12u16) & 3
    }

    fn dest_control(&self) -> (t: u16)
        ensures
            t == dma_dest_control(self.control),
    {
        (self.control >> 5u16) & 3
    }

    fn src_control(&self) -> (t: u16)
        ensures
            t == dma_src_control(self.control),
    {
        (self.control >> 7u16) & 3
    }

    fn repeat(&self) -> (b: bool)
        ensures
            b == dma_repeat(self.control),
    {
        self.control & 0x0200 != 0
    }
}

impl Timer {
    pub open spec fn zeroed() -> Timer {
        Timer { counter: 0, reload: 0, prescaler_counter: 0 }
    }

    fn new() -> (t: Self)
        ensures
            t == Timer::zeroed(),
    {
        Timer { counter: 0, reload: 0, prescaler_counter: 0 }
    }
}

// ---------------------------------------------------------------------------
// The bus as a mathematical state
// ---------------------------------------------------------------------------

impl BusState {
    /// Region sizes are those of the hardware.
    pub open spec fn wf(self) -> bool {
        &&& self.bios.len() == 0x4000
        &&& self.ewram.len() == 0x40000
        &&& self.iwram.len() == 0x8000
        &&& self.io.len() == 0x400
        &&& self.palette.len() == 0x400
        &&& self.vram.len() == 0x18000
        &&& self.oam.len() == 0x400
        &&& self.dma.len() == 4
        &&& self.timers.len() == 4
    }

    /// The state of a freshly built bus.
    pub open spec fn initial() -> BusState {
        BusState {
            bios: Seq::new(0x4000, |i: int| 0u8),
            ewram: Seq::new(0x40000, |i: int| 0u8),
            iwram: Seq::new(0x8000, |i: int| 0u8),
            io: Seq::new(0x400, |i: int| 0u8),
            palette: Seq::new(0x400, |i: int| 0u8),
            vram: Seq::new(0x18000, |i: int| 0u8),
            oam: Seq::new(0x400, |i: int| 0u8),
            rom: Seq::empty(),
            cycles: 0,
            keyinput: 0x03FF,
            dma: Seq::new(4, |i: int| DmaChannel::zeroed()),
            timers: Seq::new(4, |i: int| Timer::zeroed()),
        }
    }

    /// A read of the I/O register at `off`: KEYINPUT and the timer counters
    /// read live state, everything else reads the register file.
    pub open spec fn io_read(self, off: int) -> u8 {
        if off == 0x130 {
            self.keyinput as u8
        } else if off == 0x131 {
            (self.keyinput >> 8u16) as u8
        } else if is_timer_data(off) {
            let c = self.timers[(off - 0x100) / 4].counter;
            if off % 2 == 0 {
                c as u8
            } else {
                (c >> 8u16) as u8
            }
        } else {
            self.io[off]
        }
    }

    /// The byte a read of `addr` returns.
    pub open spec fn read_byte(self, addr: u32) -> u8 {
        if in_bios(addr) {
            self.bios[addr as int]
        } else if in_ewram(addr) {
            self.ewram[(addr % 0x40000) as int]
        } else if in_iwram(addr) {
            self.iwram[(addr % 0x8000) as int]
        } else if in_io(addr) {
            self.io_read((addr % 0x400) as int)
        } else if in_palette(addr) {
            self.palette[(addr % 0x400) as int]
        } else if in_vram(addr) {
            self.vram[vram_index(addr)]
        } else if in_oam(addr) {
            self.oam[(addr % 0x400) as int]
        } else if in_rom(addr) {
            let o = addr % 0x0200_0000;
            if o < self.rom.len() {
                self.rom[o as int]
            } else {
                0
            }
        } else {
            0
        }
    }

    /// Little-endian 16-bit read.
    pub open spec fn read_halfword(self, addr: u32) -> u16
        recommends
            addr <= 0xFFFF_FFFE,
    {
        le16(self.read_byte(addr), self.read_byte((addr + 1) as u32))
    }

    /// Little-endian 32-bit read.
    pub open spec fn read_word(self, addr: u32) -> u32
        recommends
            addr <= 0xFFFF_FFFC,
    {
        le32(
            self.read_byte(addr),
            self.read_byte((addr + 1) as u32),
            self.read_byte((addr + 2) as u32),
            self.read_byte((addr + 3) as u32),
        )
    }

    /// 32-bit little-endian value in the I/O register file.
    pub open spec fn io_u32(self, off: int) -> u32 {
        le32(self.io[off], self.io[off + 1], self.io[off + 2], self.io[off + 3])
    }

    /// 16-bit little-endian value in the I/O register file.
    pub open spec fn io_u16(self, off: int) -> u16 {
        le16(self.io[off], self.io[off + 1])
    }

    /// The effect of a byte write to the I/O register at `off`, before any
    /// DMA it starts: IF is write-1-to-clear, the timer data registers set the
    /// reload value, enabling a timer reloads its counter and clears its
    /// prescaler, and everything else is stored.
    pub open spec fn io_store(self, off: int, v: u8) -> BusState {
        if off == 0x202 || off == 0x203 {
            BusState { io: self.io.update(off, self.io[off] & !v), ..self }
        } else if is_timer_data(off) {
            let i = (off - 0x100) / 4;
            let t = self.timers[i];
            let reload = if off % 2 == 0 {
                (t.reload & 0xFF00) | (v as u16)
            } else {
                (t.reload & 0x00FF) | ((v as u16) << 8u16)
            };
            BusState { timers: self.timers.update(i, Timer { reload, ..t }), ..self }
        } else if is_timer_control(off) {
            let i = (off - 0x102) / 4;
            let t = self.timers[i];
            let io2 = self.io.update(off, v);
            if self.io[off] & 0x80 == 0 && v & 0x80 != 0 {
                BusState {
                    io: io2,
                    timers: self.timers.update(
                        i,
                        Timer { counter: t.reload, prescaler_counter: 0, ..t },
                    ),
                    ..self
                }
            } else {
                BusState { io: io2, ..self }
            }
        } else {
            BusState { io: self.io.update(off, v), ..self }
        }
    }

    /// The effect of a byte write to `addr`, before any DMA it starts.
    /// BIOS, ROM and unmapped space ignore writes.
    pub open spec fn store_byte(self, addr: u32, v: u8) -> BusState {
        if in_ewram(addr) {
            BusState { ewram: self.ewram.update((addr % 0x40000) as int, v), ..self }
        } else if in_iwram(addr) {
            BusState { iwram: self.iwram.update((addr % 0x8000) as int, v), ..self }
        } else if in_io(addr) {
            self.io_store((addr % 0x400) as int, v)
        } else if in_palette(addr) {
            BusState { palette: self.palette.update((addr % 0x400) as int, v), ..self }
        } else if in_vram(addr) {
            BusState { vram: self.vram.update(vram_index(addr), v), ..self }
        } else if in_oam(addr) {
            BusState { oam: self.oam.update((addr % 0x400) as int, v), ..self }
        } else {
            self
        }
    }

    /// Whether a byte write to `addr` writes the high control byte of a DMA
    /// channel (and so may start a transfer).
    pub open spec fn starts_dma_check(addr: u32) -> bool {
        in_io(addr) && is_dma_control_high((addr % 0x400) as int)
    }

    /// A byte write, including any DMA transfer it starts.
    pub open spec fn write_byte_f(self, addr: u32, v: u8, fuel: nat) -> Option<BusState>
        decreases fuel, 0nat, 3nat,
    {
        let s1 = self.store_byte(addr, v);
        if Self::starts_dma_check(addr) {
            s1.dma_control_write_f(((addr % 0x400) - 0xBB) / 12, fuel)
        } else {
            Some(s1)
        }
    }

    /// A little-endian halfword write; undefined when `addr + 1` overflows.
    pub open spec fn write_halfword_f(self, addr: u32, v: u16, fuel: nat) -> Option<BusState>
        decreases fuel, 0nat, 4nat,
    {
        if addr > 0xFFFF_FFFE {
            None
        } else {
            match self.write_byte_f(addr, v as u8, fuel) {
                None => None,
                Some(s1) => s1.write_byte_f((addr + 1) as u32, (v >> 8u16) as u8, fuel),
            }
        }
    }

    /// A little-endian word write; undefined when `addr + 3` overflows.
    pub open spec fn write_word_f(self, addr: u32, v: u32, fuel: nat) -> Option<BusState>
        decreases fuel, 0nat, 4nat,
    {
        if addr > 0xFFFF_FFFC {
            None
        } else {
            match self.write_byte_f(addr, v as u8, fuel) {
                None => None,
                Some(s1) => match s1.write_byte_f((addr + 1) as u32, (v >> 8u32) as u8, fuel) {
                    None => None,
                    Some(s2) => match s2.write_byte_f((addr + 2) as u32, (v >> 16u32) as u8, fuel) {
                        None => None,
                        Some(s3) => s3.write_byte_f((addr + 3) as u32, (v >> 24u32) as u8, fuel),
                    },
                },
            }
        }
    }

    /// Reaction to a write of channel `ch`'s control high byte: the control
    /// register is reloaded from the I/O file; on a rising enable edge the
    /// addresses and count are latched (masked to the channel's range) and an
    /// immediate-timing transfer runs at once.
    pub open spec fn dma_control_write_f(self, ch: int, fuel: nat) -> Option<BusState>
        decreases fuel, 0nat, 2nat,
    {
        let base = 0xB0 + ch * 12;
        let sad = self.io_u32(base);
        let dad = self.io_u32(base + 4);
        let count = self.io_u16(base + 8);
        let control = self.io_u16(base + 10);
        let d = self.dma[ch];
        if !dma_enabled(d.control) && dma_enabled(control) {
            let sad_mask: u32 = if ch == 0 {
                0x07FF_FFFF
            } else {
                0x0FFF_FFFF
            };
            let dad_mask: u32 = if ch == 3 {
                0x0FFF_FFFF
            } else {
                0x07FF_FFFF
            };
            let nd = DmaChannel {
                sad: sad & sad_mask,
                dad: dad & dad_mask,
                count,
                control,
                internal_sad: sad & sad_mask,
                internal_dad: dad & dad_mask,
            };
            let s2 = BusState { dma: self.dma.update(ch, nd), ..self };
            if dma_start_timing(control) == 0 {
                s2.run_dma_f(ch, fuel)
            } else {
                Some(s2)
            }
        } else {
            Some(BusState { dma: self.dma.update(ch, DmaChannel { control, ..d }), ..self })
        }
    }

    /// One whole transfer of channel `ch`.
    pub open spec fn run_dma_f(self, ch: int, fuel: nat) -> Option<BusState>
        decreases fuel, 0nat, 1nat,
    {
        if fuel == 0 {
            None
        } else {
            let d = self.dma[ch];
            let dc = dma_dest_control(d.control);
            match self.dma_units_f(
                dma_transfer_32(d.control),
                dma_src_control(d.control),
                dc,
                d.internal_sad,
                d.internal_dad,
                dma_unit_count(ch, d.count),
                (fuel - 1) as nat,
            ) {
                None => None,
                Some(r) => Some(r.0.dma_finish(ch, r.1, r.2, dc)),
            }
        }
    }

    /// The last `n` units of a transfer from `src` to `dst`; yields the final
    /// state and addresses.
    pub open spec fn dma_units_f(
        self,
        t32: bool,
        src_control: u16,
        dst_control: u16,
        src: u32,
        dst: u32,
        n: nat,
        fuel: nat,
    ) -> Option<(BusState, u32, u32)>
        decreases fuel, n, 0nat,
    {
        if n == 0 {
            Some((self, src, dst))
        } else {
            let step: u32 = if t32 {
                4
            } else {
                2
            };
            let r = if t32 {
                if src > 0xFFFF_FFFC {
                    None
                } else {
                    self.write_word_f(dst, self.read_word(src), fuel)
                }
            } else {
                if src > 0xFFFF_FFFE {
                    None
                } else {
                    self.write_halfword_f(dst, self.read_halfword(src), fuel)
                }
            };
            match r {
                None => None,
                Some(s1) => s1.dma_units_f(
                    t32,
                    src_control,
                    dst_control,
                    dma_next_src(src_control, src, step),
                    dma_next_dst(dst_control, dst, step),
                    (n - 1) as nat,
                    fuel,
                ),
            }
        }
    }

    /// End of a transfer: store the running addresses (the destination
    /// reloads in increment/reload mode) and, unless the channel repeats on a
    /// blanking trigger, clear its enable bit both in the channel and in the
    /// I/O file.
    pub open spec fn dma_finish(self, ch: int, src: u32, dst: u32, dst_control: u16) -> BusState {
        let d = self.dma[ch];
        let d1 = DmaChannel {
            internal_sad: src,
            internal_dad: if dst_control == 3 {
                d.dad
            } else {
                dst
            },
            ..d
        };
        if !dma_repeat(d1.control) || dma_start_timing(d1.control) == 0 {
            let c = d1.control & 0x7FFF;
            let o = 0xB0 + ch * 12 + 10;
            BusState {
                dma: self.dma.update(ch, DmaChannel { control: c, ..d1 }),
                io: self.io.update(o, c as u8).update(o + 1, (c >> 8u16) as u8),
                ..self
            }
        } else {
            BusState { dma: self.dma.update(ch, d1), ..self }
        }
    }

    /// Whether a byte write is defined (its DMA chain ends and stays in range).
    pub open spec fn write_byte_ok(self, addr: u32, v: u8) -> bool {
        exists|f: nat| (#[trigger] self.write_byte_f(addr, v, f)) is Some
    }

    /// The state after a defined byte write.
    pub open spec fn write_byte_result(self, addr: u32, v: u8) -> BusState {
        self.write_byte_f(addr, v, choose|f: nat| (#[trigger] self.write_byte_f(addr, v, f)) is Some)->0
    }

    pub open spec fn write_halfword_ok(self, addr: u32, v: u16) -> bool {
        exists|f: nat| (#[trigger] self.write_halfword_f(addr, v, f)) is Some
    }

    pub open spec fn write_halfword_result(self, addr: u32, v: u16) -> BusState {
        self.write_halfword_f(
            addr,
            v,
            choose|f: nat| (#[trigger] self.write_halfword_f(addr, v, f)) is Some,
        )->0
    }

    pub open spec fn write_word_ok(self, addr: u32, v: u32) -> bool {
        exists|f: nat| (#[trigger] self.write_word_f(addr, v, f)) is Some
    }

    pub open spec fn write_word_result(self, addr: u32, v: u32) -> BusState {
        self.write_word_f(addr, v, choose|f: nat| (#[trigger] self.write_word_f(addr, v, f)) is Some)->0
    }
}


/// Scanline shown at cycle count `cycles` (0..=227).
pub open spec fn scanline_at(cycles: u32) -> u8 {
    ((cycles % 280896) / 1232) as u8
}

/// Whether cycle count `cycles` falls in the horizontal blank of its line.
pub open spec fn hblank_at(cycles: u32) -> bool {
    (cycles % 280896) % 1232 >= 960
}

/// DISPSTAT after the display reaches `line`: the interrupt-enable and
/// target bits are kept, bit 0 is VBlank (lines 160..=227), bit 1 is HBlank,
/// bit 2 is the VCount match against `target`.
pub open spec fn dispstat_value(old: u8, line: u8, target: u8, hblank: bool) -> u8 {
    let d0 = old & 0xF8;
    let d1 = if line >= 160 {
        d0 | 1
    } else {
        d0
    };
    let d2 = if hblank {
        d1 | 2
    } else {
        d1
    };
    if line == target {
        d2 | 4
    } else {
        d2
    }
}

impl BusState {
    /// Runs, in channel order, every enabled channel whose start timing is
    /// `timing`, from channel `ch` on.
    pub open spec fn check_dma_from(self, ch: int, timing: u16, fuel: nat) -> Option<BusState>
        decreases 4 - ch,
    {
        if ch >= 4 {
            Some(self)
        } else {
            let d = self.dma[ch];
            let r = if dma_enabled(d.control) && dma_start_timing(d.control) == timing {
                self.run_dma_f(ch, fuel)
            } else {
                Some(self)
            };
            match r {
                None => None,
                Some(s) => s.check_dma_from(ch + 1, timing, fuel),
            }
        }
    }

    /// Adds `ticks` to timer `idx`; on overflow reloads (keeping the ticks
    /// past the last overflow), raises the timer's interrupt flag when its
    /// IRQ bit is set, and feeds the number of overflows to the next timer
    /// when that one is enabled in cascade mode. Undefined when the sum
    /// overflows 32 bits.
    pub open spec fn timer_add_f(self, idx: int, ticks: u32) -> Option<BusState>
        decreases 4 - idx,
    {
        let t = self.timers[idx];
        let old = t.counter as u32;
        if old + ticks > u32::MAX {
            None
        } else {
            let nv = old + ticks;
            if nv > 0xFFFF {
                let remaining = nv - 0x10000;
                let reload = t.reload as u32;
                let range = 0x10000 - reload;
                let overflows = (1 + remaining / range) as u32;
                let s1 = BusState {
                    timers: self.timers.update(
                        idx,
                        Timer { counter: (reload + remaining % range) as u16, ..t },
                    ),
                    ..self
                };
                let control = s1.io[0x102 + idx * 4];
                let s2 = if control & 0x40 != 0 {
                    BusState {
                        io: s1.io.update(0x202, s1.io[0x202] | (1u8 << ((3 + idx) as u8))),
                        ..s1
                    }
                } else {
                    s1
                };
                if idx < 3 && idx >= 0 {
                    let next = s2.io[0x102 + (idx + 1) * 4];
                    if next & 0x80 != 0 && next & 0x04 != 0 {
                        s2.timer_add_f(idx + 1, overflows)
                    } else {
                        Some(s2)
                    }
                } else {
                    Some(s2)
                }
            } else {
                Some(BusState { timers: self.timers.update(idx, Timer { counter: nv as u16, ..t }), ..self })
            }
        }
    }

    /// Advances timer `i` by `cycles` when it is enabled and not cascaded.
    pub open spec fn timer_step(self, i: int, cycles: u32) -> Option<BusState> {
        let control = self.io[0x102 + i * 4];
        if control & 0x80 == 0 || (control & 0x04 != 0 && i > 0) {
            Some(self)
        } else {
            let t = self.timers[i];
            if t.prescaler_counter + cycles > u32::MAX {
                None
            } else {
                let pre = prescaler_divider(control & 3);
                let pc = (t.prescaler_counter + cycles) as u32;
                let s1 = BusState {
                    timers: self.timers.update(i, Timer { prescaler_counter: pc % pre, ..t }),
                    ..self
                };
                if pc / pre > 0 {
                    s1.timer_add_f(i, pc / pre)
                } else {
                    Some(s1)
                }
            }
        }
    }

    /// Advances timers `i..4` by `cycles`.
    pub open spec fn timers_from(self, i: int, cycles: u32) -> Option<BusState>
        decreases 4 - i,
    {
        if i >= 4 {
            Some(self)
        } else {
            match self.timer_step(i, cycles) {
                None => None,
                Some(s) => s.timers_from(i + 1, cycles),
            }
        }
    }

    /// The display registers after the cycle counter advances by `cycles`:
    /// VCOUNT and DISPSTAT follow the new count.
    pub open spec fn display_update(self, cycles: u32) -> BusState {
        let cyc = vstd::wrapping::u32_specs::wrapping_add(self.cycles, cycles);
        let line = scanline_at(cyc);
        let ds = dispstat_value(self.io[4], line, self.io[5], hblank_at(cyc));
        BusState { cycles: cyc, io: self.io.update(6, line).update(7, 0).update(4, ds), ..self }
    }

    /// IF after the display moved from DISPSTAT `old_ds` to `ds`: VBlank,
    /// HBlank and VCount-match interrupts are raised on their rising edges
    /// when DISPSTAT enables them.
    pub open spec fn raise_display_irqs(self, old_ds: u8, ds: u8) -> BusState {
        let f0 = self.io[0x202];
        let f1 = if ds & 1 != 0 && old_ds & 1 == 0 && ds & 0x08 != 0 {
            f0 | 1
        } else {
            f0
        };
        let f2 = if ds & 2 != 0 && old_ds & 2 == 0 && ds & 0x10 != 0 {
            f1 | 2
        } else {
            f1
        };
        let f3 = if ds & 4 != 0 && old_ds & 4 == 0 && ds & 0x20 != 0 {
            f2 | 4
        } else {
            f2
        };
        BusState { io: self.io.update(0x202, f3), ..self }
    }

    /// Display timing after `cycles` more cycles: VCOUNT and DISPSTAT follow
    /// the new cycle count, blanking DMA runs on the rising edges of VBlank and
    /// HBlank, the VBlank, HBlank and VCount-match interrupt flags are raised
    /// on their rising edges when enabled in DISPSTAT, and the timers advance.
    #[verifier::opaque]
    pub open spec fn tick_f(self, cycles: u32, fuel: nat) -> Option<BusState> {
        let old_ds = self.io[4];
        let s1 = self.display_update(cycles);
        let ds = s1.io[4];
        let r2 = if ds & 1 != 0 && old_ds & 1 == 0 {
            s1.check_dma_from(0, 1, fuel)
        } else {
            Some(s1)
        };
        match r2 {
            None => None,
            Some(s2) => {
                let r3 = if ds & 2 != 0 && old_ds & 2 == 0 {
                    s2.check_dma_from(0, 2, fuel)
                } else {
                    Some(s2)
                };
                match r3 {
                    None => None,
                    Some(s3) => s3.raise_display_irqs(old_ds, ds).timers_from(0, cycles),
                }
            },
        }
    }

    pub open spec fn tick_ok(self, cycles: u32) -> bool {
        exists|f: nat| (#[trigger] self.tick_f(cycles, f)) is Some
    }

    pub open spec fn tick_result(self, cycles: u32) -> BusState {
        self.tick_f(cycles, choose|f: nat| (#[trigger] self.tick_f(cycles, f)) is Some)->0
    }

    pub open spec fn check_dma_ok(self, timing: u16) -> bool {
        exists|f: nat| (#[trigger] self.check_dma_from(0, timing, f)) is Some
    }

    pub open spec fn check_dma_result(self, timing: u16) -> BusState {
        self.check_dma_from(
            0,
            timing,
            choose|f: nat| (#[trigger] self.check_dma_from(0, timing, f)) is Some,
        )->0
    }

    /// An interrupt is pending when IME is set and some interrupt is both
    /// enabled (IE) and requested (IF).
    pub open spec fn irq_pending(self) -> bool {
        self.io[0x208] & 1 != 0 && (le16(self.io[0x200], self.io[0x201]) & le16(
            self.io[0x202],
            self.io[0x203],
        )) != 0
    }
}

/// Bit masks that select an address's offset within a mirrored region.
proof fn lemma_region_masks(addr: u32)
    ensures
        addr & 0x3FFF == addr % 0x4000,
        addr & 0x3FFFF == addr % 0x40000,
        addr & 0x7FFF == addr % 0x8000,
        addr & 0x3FF == addr % 0x400,
        addr & 0x1FFFF == addr % 0x20000,
        addr & 0x01FF_FFFF == addr % 0x0200_0000,
{
    assert(addr & 0x3FFF == addr % 0x4000 && addr & 0x3FFFF == addr % 0x40000 && addr & 0x7FFF
        == addr % 0x8000 && addr & 0x3FF == addr % 0x400 && addr & 0x1FFFF == addr % 0x20000
        && addr & 0x01FF_FFFF == addr % 0x0200_0000) by (bit_vector);
}

impl Bus {
    /// A bus with all memory cleared, no ROM, and every button released.
    pub fn new() -> (b: Self)
        ensures
            b@ == BusState::initial(),
            b@.wf(),
    {
        let b = Bus {
            bios: vec![0; 0x4000],
            ewram: vec![0; 0x40000],
            iwram: vec![0; 0x8000],
            io: vec![0; 0x400],
            palette: vec![0; 0x400],
            vram: vec![0; 0x18000],
            oam: vec![0; 0x400],
            rom: Vec::new(),
            cycles: 0,
            keyinput: 0x03FF,
            dma: [DmaChannel::new(), DmaChannel::new(), DmaChannel::new(), DmaChannel::new()],
            timers: [Timer::new(), Timer::new(), Timer::new(), Timer::new()],
        };
        assert(b@.dma =~= Seq::new(4, |i: int| DmaChannel::zeroed()));
        assert(b@.timers =~= Seq::new(4, |i: int| Timer::zeroed()));
        b
    }

    /// Copies the first 16 KB of `data` (or all of it, if shorter) into the
    /// BIOS region.
    pub fn load_bios(&mut self, data: Vec<u8>)
        requires
            old(self)@.wf(),
        ensures
            final(self)@.wf(),
            final(self)@ == (BusState {
                bios: if data@.len() < 0x4000 {
                    data@ + old(self)@.bios.skip(data@.len() as int)
                } else {
                    data@.take(0x4000)
                },
                ..old(self)@
            }),
    {
        let len = if data.len() < self.bios.len() {
            data.len()
        } else {
            self.bios.len()
        };
        let mut i: usize = 0;
        while i < len
            invariant
                0 <= i <= len,
                len <= data@.len(),
                len == if data@.len() < 0x4000 { data@.len() } else { 0x4000 },
                self@ == (BusState { bios: self@.bios, ..old(self)@ }),
                self@.bios.len() == 0x4000,
                forall|j: int| 0 <= j < i ==> self@.bios[j] == data@[j],
                forall|j: int| i <= j < 0x4000 ==> self@.bios[j] == old(self)@.bios[j],
            decreases len - i,
        {
            self.bios[i] = data[i];
            i = i + 1;
        }
        if data.len() < 0x4000 {
            assert(self@.bios =~= data@ + old(self)@.bios.skip(data@.len() as int));
        } else {
            assert(self@.bios =~= data@.take(0x4000));
        }
    }

    /// Replaces the cartridge ROM.
    pub fn load_rom(&mut self, data: Vec<u8>)
        requires
            old(self)@.wf(),
        ensures
            final(self)@.wf(),
            final(self)@ == (BusState { rom: data@, ..old(self)@ }),
    {
        self.rom = data;
    }

    /// Read of the I/O register at `offset`.
    fn io_read_byte(&self, offset: usize) -> (b: u8)
        requires
            self@.wf(),
            offset < 0x400,
        ensures
            b == self@.io_read(offset as int),
    {
        if offset == 0x130 {
            self.keyinput as u8
        } else if offset == 0x131 {
            (self.keyinput >> 8u16) as u8
        } else if offset >= 0x100 && offset < 0x110 && (offset - 0x100) % 4 < 2 {
            let c = self.timers[(offset - 0x100) / 4].counter;
            if offset % 2 == 0 {
                c as u8
            } else {
                (c >> 8u16) as u8
            }
        } else {
            self.io[offset]
        }
    }

    /// Reads the byte at `addr`.
    pub fn read_byte(&self, addr: u32) -> (b: u8)
        requires
            self@.wf(),
        ensures
            b == self@.read_byte(addr),
    {
        proof {
            lemma_region_masks(addr);
        }
        if addr <= 0x3FFF {
            self.bios[(addr & 0x3FFF) as usize]
        } else if 0x0200_0000 <= addr && addr <= 0x02FF_FFFF {
            self.ewram[(addr & 0x3FFFF) as usize]
        } else if 0x0300_0000 <= addr && addr <= 0x03FF_FFFF {
            self.iwram[(addr & 0x7FFF) as usize]
        } else if 0x0400_0000 <= addr && addr <= 0x0400_03FE {
            self.io_read_byte((addr & 0x3FF) as usize)
        } else if 0x0500_0000 <= addr && addr <= 0x05FF_FFFF {
            self.palette[(addr & 0x3FF) as usize]
        } else if 0x0600_0000 <= addr && addr <= 0x06FF_FFFF {
            let offset = (addr & 0x1FFFF) as usize;
            let offset = if offset >= 0x18000 {
                offset - 0x8000
            } else {
                offset
            };
            self.vram[offset]
        } else if 0x0700_0000 <= addr && addr <= 0x07FF_FFFF {
            self.oam[(addr & 0x3FF) as usize]
        } else if 0x0800_0000 <= addr && addr <= 0x0DFF_FFFF {
            let offset = (addr & 0x01FF_FFFF) as usize;
            if offset < self.rom.len() {
                self.rom[offset]
            } else {
                0
            }
        } else {
            0
        }
    }

    /// Reads a little-endian 32-bit word.
    pub fn read_word(&self, addr: u32) -> (w: u32)
        requires
            self@.wf(),
            addr <= 0xFFFF_FFFC,
        ensures
            w == self@.read_word(addr),
    {
        let b0 = self.read_byte(addr) as u32;
        let b1 = self.read_byte(addr + 1) as u32;
        let b2 = self.read_byte(addr + 2) as u32;
        let b3 = self.read_byte(addr + 3) as u32;
        b0 | (b1 << 8u32) | (b2 << 16u32) | (b3 << 24u32)
    }

    /// Reads a little-endian 16-bit halfword.
    pub fn read_halfword(&self, addr: u32) -> (h: u16)
        requires
            self@.wf(),
            addr <= 0xFFFF_FFFE,
        ensures
            h == self@.read_halfword(addr),
    {
        let b0 = self.read_byte(addr) as u16;
        let b1 = self.read_byte(addr + 1) as u16;
        b0 | (b1 << 8u16)
    }

    /// Byte write to the I/O register at `offset`, before any DMA it starts.
    fn io_store(&mut self, offset: usize, value: u8)
        requires
            old(self)@.wf(),
            offset < 0x400,
        ensures
            final(self)@.wf(),
            final(self)@ == old(self)@.io_store(offset as int, value),
    {
        if offset == 0x202 || offset == 0x203 {
            self.io[offset] = self.io[offset] & !value;
        } else if offset >= 0x100 && offset < 0x110 && (offset - 0x100) % 4 < 2 {
            let i = (offset - 0x100) / 4;
            if offset % 2 == 0 {
                self.timers[i].reload = (self.timers[i].reload & 0xFF00) | (value as u16);
            } else {
                self.timers[i].reload = (self.timers[i].reload & 0x00FF) | ((value as u16) << 8u16);
            }
        } else if offset >= 0x100 && offset < 0x110 && (offset - 0x100) % 4 == 2 {
            let i = (offset - 0x102) / 4;
            let old_enable = self.io[offset] & 0x80 != 0;
            let new_enable = value & 0x80 != 0;
            self.io[offset] = value;
            if !old_enable && new_enable {
                self.timers[i].counter = self.timers[i].reload;
                self.timers[i].prescaler_counter = 0;
            }
        } else {
            self.io[offset] = value;
        }
    }

    /// Byte write, before any DMA it starts.
    fn store_byte(&mut self, addr: u32, value: u8)
        requires
            old(self)@.wf(),
        ensures
            final(self)@.wf(),
            final(self)@ == old(self)@.store_byte(addr, value),
    {
        proof {
            lemma_region_masks(addr);
        }
        if 0x0200_0000 <= addr && addr <= 0x02FF_FFFF {
            self.ewram[(addr & 0x3FFFF) as usize] = value;
        } else if 0x0300_0000 <= addr && addr <= 0x03FF_FFFF {
            self.iwram[(addr & 0x7FFF) as usize] = value;
        } else if 0x0400_0000 <= addr && addr <= 0x0400_03FE {
            self.io_store((addr & 0x3FF) as usize, value);
        } else if 0x0500_0000 <= addr && addr <= 0x05FF_FFFF {
            self.palette[(addr & 0x3FF) as usize] = value;
        } else if 0x0600_0000 <= addr && addr <= 0x06FF_FFFF {
            let offset = (addr & 0x1FFFF) as usize;
            let offset = if offset >= 0x18000 {
                offset - 0x8000
            } else {
                offset
            };
            self.vram[offset] = value;
        } else if 0x0700_0000 <= addr && addr <= 0x07FF_FFFF {
            self.oam[(addr & 0x3FF) as usize] = value;
        }
    }

    /// Byte write with a DMA nesting budget.
    pub(crate) fn write_byte_fuel(&mut self, addr: u32, value: u8, Ghost(fuel): Ghost<nat>)
        requires
            old(self)@.wf(),
            old(self)@.write_byte_f(addr, value, fuel) is Some,
        ensures
            final(self)@.wf(),
            Some(final(self)@) == old(self)@.write_byte_f(addr, value, fuel),
        decreases fuel, 0nat, 3nat,
    {
        proof {
            lemma_region_masks(addr);
        }
        self.store_byte(addr, value);
        if 0x0400_0000 <= addr && addr <= 0x0400_03FE {
            let offset = (addr & 0x3FF) as usize;
            if offset >= 0x0BB && offset <= 0x0DF && (offset - 0x0BB) % 12 == 0 {
                self.on_dma_control_write((offset - 0x0BB) / 12, Ghost(fuel));
            }
        }
    }

    /// Halfword write with a DMA nesting budget.
    pub(crate) fn write_halfword_fuel(&mut self, addr: u32, value: u16, Ghost(fuel): Ghost<nat>)
        requires
            old(self)@.wf(),
            old(self)@.write_halfword_f(addr, value, fuel) is Some,
        ensures
            final(self)@.wf(),
            Some(final(self)@) == old(self)@.write_halfword_f(addr, value, fuel),
        decreases fuel, 0nat, 4nat,
    {
        self.write_byte_fuel(addr, value as u8, Ghost(fuel));
        self.write_byte_fuel(addr + 1, (value >> 8u16) as u8, Ghost(fuel));
    }

    /// Word write with a DMA nesting budget.
    pub(crate) fn write_word_fuel(&mut self, addr: u32, value: u32, Ghost(fuel): Ghost<nat>)
        requires
            old(self)@.wf(),
            old(self)@.write_word_f(addr, value, fuel) is Some,
        ensures
            final(self)@.wf(),
            Some(final(self)@) == old(self)@.write_word_f(addr, value, fuel),
        decreases fuel, 0nat, 4nat,
    {
        self.write_byte_fuel(addr, value as u8, Ghost(fuel));
        self.write_byte_fuel(addr + 1, (value >> 8u32) as u8, Ghost(fuel));
        self.write_byte_fuel(addr + 2, (value >> 16u32) as u8, Ghost(fuel));
        self.write_byte_fuel(addr + 3, (value >> 24u32) as u8, Ghost(fuel));
    }

    /// Writes a byte, with all its effects on hardware registers.
    pub fn write_byte(&mut self, addr: u32, value: u8)
        requires
            old(self)@.wf(),
            old(self)@.write_byte_ok(addr, value),
        ensures
            final(self)@.wf(),
            final(self)@ == old(self)@.write_byte_result(addr, value),
    {
        let ghost s = self@;
        let ghost fuel = choose|f: nat| (#[trigger] s.write_byte_f(addr, value, f)) is Some;
        self.write_byte_fuel(addr, value, Ghost(fuel));
    }

    /// Writes a little-endian halfword.
    pub fn write_halfword(&mut self, addr: u32, value: u16)
        requires
            old(self)@.wf(),
            old(self)@.write_halfword_ok(addr, value),
        ensures
            final(self)@.wf(),
            final(self)@ == old(self)@.write_halfword_result(addr, value),
    {
        let ghost s = self@;
        let ghost fuel = choose|f: nat| (#[trigger] s.write_halfword_f(addr, value, f)) is Some;
        self.write_halfword_fuel(addr, value, Ghost(fuel));
    }

    /// Writes a little-endian word.
    pub fn write_word(&mut self, addr: u32, value: u32)
        requires
            old(self)@.wf(),
            old(self)@.write_word_ok(addr, value),
        ensures
            final(self)@.wf(),
            final(self)@ == old(self)@.write_word_result(addr, value),
    {
        let ghost s = self@;
        let ghost fuel = choose|f: nat| (#[trigger] s.write_word_f(addr, value, f)) is Some;
        self.write_word_fuel(addr, value, Ghost(fuel));
    }

    /// 32-bit little-endian value in the I/O register file.
    fn io_read_u32(&self, offset: usize) -> (w: u32)
        requires
            self@.wf(),
            offset + 3 < 0x400,
        ensures
            w == self@.io_u32(offset as int),
    {
        self.io[offset] as u32 | (self.io[offset + 1] as u32) << 8u32 | (self.io[offset + 2] as u32)
            << 16u32 | (self.io[offset + 3] as u32) << 24u32
    }

    /// 16-bit little-endian value in the I/O register file.
    fn io_read_u16(&self, offset: usize) -> (h: u16)
        requires
            self@.wf(),
            offset + 1 < 0x400,
        ensures
            h == self@.io_u16(offset as int),
    {
        self.io[offset] as u16 | (self.io[offset + 1] as u16) << 8u16
    }

    /// Reaction to a write of a DMA channel's control high byte.
    fn on_dma_control_write(&mut self, ch: usize, Ghost(fuel): Ghost<nat>)
        requires
            ch < 4,
            old(self)@.wf(),
            old(self)@.dma_control_write_f(ch as int, fuel) is Some,
        ensures
            final(self)@.wf(),
            Some(final(self)@) == old(self)@.dma_control_write_f(ch as int, fuel),
        decreases fuel, 0nat, 2nat,
    {
        let base = 0x0B0 + ch * 12;
        let sad = self.io_read_u32(base);
        let dad = self.io_read_u32(base + 4);
        let count = self.io_read_u16(base + 8);
        let control = self.io_read_u16(base + 10);

        let was_enabled = self.dma[ch].enabled();
        if !was_enabled && control & 0x8000 != 0 {
            let sad_mask: u32 = if ch == 0 {
                0x07FF_FFFF
            } else {
                0x0FFF_FFFF
            };
            let dad_mask: u32 = if ch == 3 {
                0x0FFF_FFFF
            } else {
                0x07FF_FFFF
            };
            let nd = DmaChannel {
                sad: sad & sad_mask,
                dad: dad & dad_mask,
                count,
                control,
                internal_sad: sad & sad_mask,
                internal_dad: dad & dad_mask,
            };
            self.dma[ch] = nd;
            if nd.start_timing() == 0 {
                self.run_dma(ch, Ghost(fuel));
            }
        } else {
            self.dma[ch].control = control;
        }
    }

    /// Runs one whole transfer of channel `ch`.
    fn run_dma(&mut self, ch: usize, Ghost(fuel): Ghost<nat>)
        requires
            ch < 4,
            old(self)@.wf(),
            old(self)@.run_dma_f(ch as int, fuel) is Some,
        ensures
            final(self)@.wf(),
            Some(final(self)@) == old(self)@.run_dma_f(ch as int, fuel),
        decreases fuel, 0nat, 1nat,
    {
        let ghost f1 = (fuel - 1) as nat;
        let transfer_32 = self.dma[ch].transfer_32bit();
        let src_ctrl = self.dma[ch].src_control();
        let dst_ctrl = self.dma[ch].dest_control();
        let mut src = self.dma[ch].internal_sad;
        let mut dst = self.dma[ch].internal_dad;

        let count: u32 = if self.dma[ch].count == 0 {
            if ch == 3 {
                0x10000u32
            } else {
                0x4000u32
            }
        } else {
            self.dma[ch].count as u32
        };
        let step: u32 = if transfer_32 {
            4
        } else {
            2
        };
        let ghost total = old(self)@.dma_units_f(
            transfer_32,
            src_ctrl,
            dst_ctrl,
            src,
            dst,
            count as nat,
            f1,
        );

        let mut i: u32 = 0;
        while i < count
            invariant
                ch < 4,
                fuel > 0,
                f1 == fuel - 1,
                i <= count,
                step == (if transfer_32 { 4u32 } else { 2u32 }),
                self@.wf(),
                total is Some,
                self@.dma_units_f(transfer_32, src_ctrl, dst_ctrl, src, dst, (count - i) as nat, f1)
                    == total,
            decreases count - i,
        {
            if transfer_32 {
                let val = self.read_word(src);
                self.write_word_fuel(dst, val, Ghost(f1));
            } else {
                let val = self.read_halfword(src);
                self.write_halfword_fuel(dst, val, Ghost(f1));
            }
            if src_ctrl == 0 {
                src = src.wrapping_add(step);
            } else if src_ctrl == 1 {
                src = src.wrapping_sub(step);
            }
            if dst_ctrl == 0 || dst_ctrl == 3 {
                dst = dst.wrapping_add(step);
            } else if dst_ctrl == 1 {
                dst = dst.wrapping_sub(step);
            }
            i = i + 1;
        }

        self.dma[ch].internal_sad = src;
        self.dma[ch].internal_dad = if dst_ctrl == 3 {
            self.dma[ch].dad
        } else {
            dst
        };
        if !self.dma[ch].repeat() || self.dma[ch].start_timing() == 0 {
            self.dma[ch].control = self.dma[ch].control & 0x7FFF;
            let ctrl_offset = 0x0B0 + ch * 12 + 10;
            self.io[ctrl_offset] = self.dma[ch].control as u8;
            self.io[ctrl_offset + 1] = (self.dma[ch].control >> 8u16) as u8;
        }
    }

    /// Runs every enabled channel whose start timing is `timing`.
    pub(crate) fn check_dma_fuel(&mut self, timing: u16, Ghost(fuel): Ghost<nat>)
        requires
            old(self)@.wf(),
            old(self)@.check_dma_from(0, timing, fuel) is Some,
        ensures
            final(self)@.wf(),
            Some(final(self)@) == old(self)@.check_dma_from(0, timing, fuel),
    {
        let ghost total = self@.check_dma_from(0, timing, fuel);
        let mut ch: usize = 0;
        while ch < 4
            invariant
                ch <= 4,
                self@.wf(),
                total is Some,
                self@.check_dma_from(ch as int, timing, fuel) == total,
            decreases 4 - ch,
        {
            if self.dma[ch].enabled() && self.dma[ch].start_timing() == timing {
                self.run_dma(ch, Ghost(fuel));
            }
            ch = ch + 1;
        }
    }

    /// Runs the DMA channels armed for VBlank.
    pub fn check_vblank_dma(&mut self)
        requires
            old(self)@.wf(),
            old(self)@.check_dma_ok(1),
        ensures
            final(self)@.wf(),
            final(self)@ == old(self)@.check_dma_result(1),
    {
        let ghost s = self@;
        let ghost fuel = choose|f: nat| (#[trigger] s.check_dma_from(0, 1, f)) is Some;
        self.check_dma_fuel(1, Ghost(fuel));
    }

    /// Runs the DMA channels armed for HBlank.
    pub fn check_hblank_dma(&mut self)
        requires
            old(self)@.wf(),
            old(self)@.check_dma_ok(2),
        ensures
            final(self)@.wf(),
            final(self)@ == old(self)@.check_dma_result(2),
    {
        let ghost s = self@;
        let ghost fuel = choose|f: nat| (#[trigger] s.check_dma_from(0, 2, f)) is Some;
        self.check_dma_fuel(2, Ghost(fuel));
    }

    /// Updates VCOUNT and DISPSTAT after the cycle counter advances.
    fn update_display(&mut self, cycles: u32)
        requires
            old(self)@.wf(),
        ensures
            final(self)@.wf(),
            final(self)@ == old(self)@.display_update(cycles),
    {
        self.cycles = self.cycles.wrapping_add(cycles);
        let scanline_cycles = self.cycles % 280896;
        let current_line = (scanline_cycles / 1232) as u8;
        let line_cycle = scanline_cycles % 1232;
        self.io[0x006] = current_line;
        self.io[0x007] = 0;
        let mut dispstat = self.io[0x004] & 0xF8;
        if current_line >= 160 {
            dispstat = dispstat | 0x01;
        }
        if line_cycle >= 960 {
            dispstat = dispstat | 0x02;
        }
        let vcount_target = self.io[0x005];
        if current_line == vcount_target {
            dispstat = dispstat | 0x04;
        }
        self.io[0x004] = dispstat;
    }

    /// Raises the display interrupt flags for the DISPSTAT change.
    fn raise_display_irqs(&mut self, old_dispstat: u8, dispstat: u8)
        requires
            old(self)@.wf(),
        ensures
            final(self)@.wf(),
            final(self)@ == old(self)@.raise_display_irqs(old_dispstat, dispstat),
    {
        let mut flags = self.io[0x202];
        if dispstat & 0x01 != 0 && old_dispstat & 0x01 == 0 && (dispstat & 0x08 != 0) {
            flags = flags | 0x01;
        }
        if dispstat & 0x02 != 0 && old_dispstat & 0x02 == 0 && (dispstat & 0x10 != 0) {
            flags = flags | 0x02;
        }
        if dispstat & 0x04 != 0 && old_dispstat & 0x04 == 0 && (dispstat & 0x20 != 0) {
            flags = flags | 0x04;
        }
        self.io[0x202] = flags;
    }

    /// Display timing and timers, with a DMA nesting budget.
    pub(crate) fn tick_fuel(&mut self, cycles: u32, Ghost(fuel): Ghost<nat>)
        requires
            old(self)@.wf(),
            old(self)@.tick_f(cycles, fuel) is Some,
        ensures
            final(self)@.wf(),
            Some(final(self)@) == old(self)@.tick_f(cycles, fuel),
    {
        reveal(BusState::tick_f);
        let old_dispstat = self.io[0x004];
        self.update_display(cycles);
        let dispstat = self.io[0x004];
        if dispstat & 0x01 != 0 && old_dispstat & 0x01 == 0 {
            self.check_dma_fuel(1, Ghost(fuel));
        }
        if dispstat & 0x02 != 0 && old_dispstat & 0x02 == 0 {
            self.check_dma_fuel(2, Ghost(fuel));
        }
        self.raise_display_irqs(old_dispstat, dispstat);
        self.tick_timers(cycles);
    }

    /// Advances the display by `cycles` cycles, running blanking DMA, raising
    /// display interrupts and advancing the timers.
    pub fn tick(&mut self, cycles: u32)
        requires
            old(self)@.wf(),
            old(self)@.tick_ok(cycles),
        ensures
            final(self)@.wf(),
            final(self)@ == old(self)@.tick_result(cycles),
    {
        let ghost s = self@;
        let ghost fuel = choose|f: nat| (#[trigger] s.tick_f(cycles, f)) is Some;
        self.tick_fuel(cycles, Ghost(fuel));
    }

    /// Advances every enabled, non-cascaded timer by `cycles` cycles.
    fn tick_timers(&mut self, cycles: u32)
        requires
            old(self)@.wf(),
            old(self)@.timers_from(0, cycles) is Some,
        ensures
            final(self)@.wf(),
            Some(final(self)@) == old(self)@.timers_from(0, cycles),
    {
        let ghost total = self@.timers_from(0, cycles);
        let mut i: usize = 0;
        while i < 4
            invariant
                i <= 4,
                self@.wf(),
                total is Some,
                self@.timers_from(i as int, cycles) == total,
            decreases 4 - i,
        {
            let ghost s0 = self@;
            assert(s0.timer_step(i as int, cycles) is Some);
            let control = self.io[0x102 + i * 4];
            let enabled = control & 0x80 != 0;
            let cascade = control & 0x04 != 0;
            if enabled && !(cascade && i > 0) {
                let sel = control & 0x3;
                let prescaler: u32 = if sel == 0 {
                    1
                } else if sel == 1 {
                    64
                } else if sel == 2 {
                    256
                } else {
                    1024
                };
                self.timers[i].prescaler_counter = self.timers[i].prescaler_counter + cycles;
                let ticks = self.timers[i].prescaler_counter / prescaler;
                self.timers[i].prescaler_counter = self.timers[i].prescaler_counter % prescaler;
                assert(self@ == (BusState {
                    timers: s0.timers.update(i as int, Timer { prescaler_counter: self.timers[i as int].prescaler_counter, ..s0.timers[i as int] }),
                    ..s0
                }));
                if ticks > 0 {
                    self.timer_add(i, ticks);
                }
            }
            assert(Some(self@) == s0.timer_step(i as int, cycles));
            i = i + 1;
        }
    }

    /// Adds `ticks` to timer `idx`, handling overflow, reload, IRQ and cascade.
    fn timer_add(&mut self, idx: usize, ticks: u32)
        requires
            idx < 4,
            old(self)@.wf(),
            old(self)@.timer_add_f(idx as int, ticks) is Some,
        ensures
            final(self)@.wf(),
            Some(final(self)@) == old(self)@.timer_add_f(idx as int, ticks),
        decreases 4 - idx,
    {
        let old = self.timers[idx].counter as u32;
        let new_val = old + ticks;
        if new_val > 0xFFFF {
            let remaining = new_val - 0x10000;
            let reload = self.timers[idx].reload as u32;
            let range = 0x10000 - reload;
            let overflows = 1 + remaining / range;
            self.timers[idx].counter = (reload + remaining % range) as u16;
            let control = self.io[0x102 + idx * 4];
            if control & 0x40 != 0 {
                self.io[0x202] = self.io[0x202] | (1u8 << ((3 + idx) as u8));
            }
            if idx < 3 {
                let next_control = self.io[0x102 + (idx + 1) * 4];
                let next_enabled = next_control & 0x80 != 0;
                let next_cascade = next_control & 0x04 != 0;
                if next_enabled && next_cascade {
                    self.timer_add(idx + 1, overflows);
                }
            }
        } else {
            self.timers[idx].counter = new_val as u16;
        }
    }

    /// Whether an interrupt should be delivered (IME set and IE & IF nonzero).
    pub fn irq_pending(&self) -> (b: bool)
        requires
            self@.wf(),
        ensures
            b == self@.irq_pending(),
    {
        let ime = self.io[0x208] & 1;
        if ime == 0 {
            return false;
        }
        let ie = (self.io[0x200] as u16) | ((self.io[0x201] as u16) << 8u16);
        let if_ = (self.io[0x202] as u16) | ((self.io[0x203] as u16) << 8u16);
        (ie & if_) != 0
    }
}

// ---------------------------------------------------------------------------
// Laws of the bus
// ---------------------------------------------------------------------------

/// A RAM store keeps the region sizes and changes exactly the cell written.
pub(crate) proof fn lemma_store_ram(s: BusState, a: u32, b: u32, v: u8)
    requires
        s.wf(),
        in_ram(a),
    ensures
        s.store_byte(a, v).wf(),
        s.store_byte(a, v).read_byte(b) == if in_ram(b) && ram_cell(b) == ram_cell(a) {
            v
        } else {
            s.read_byte(b)
        },
{
}

/// A byte write to RAM never starts a DMA transfer, whatever the budget.
proof fn lemma_ram_write_f(s: BusState, a: u32, v: u8, f: nat)
    requires
        in_ram(a),
    ensures
        s.write_byte_f(a, v, f) == Some(s.store_byte(a, v)),
{
}

/// A byte write to RAM starts no DMA and stores the byte: a read of any
/// address naming the same storage cell gives the byte back, and every other
/// address reads as before.
pub proof fn lemma_ram_write_then_read(s: BusState, a: u32, b: u32, v: u8)
    requires
        s.wf(),
        in_ram(a),
    ensures
        s.write_byte_ok(a, v),
        s.write_byte_result(a, v) == s.store_byte(a, v),
        s.write_byte_result(a, v).wf(),
        s.write_byte_result(a, v).read_byte(b) == if in_ram(b) && ram_cell(b) == ram_cell(a) {
            v
        } else {
            s.read_byte(b)
        },
{
    lemma_ram_write_f(s, a, v, 0);
    let f = choose|f: nat| (#[trigger] s.write_byte_f(a, v, f)) is Some;
    lemma_ram_write_f(s, a, v, f);
    lemma_store_ram(s, a, b, v);
}

/// Reads of two RAM addresses that name the same storage cell agree (the
/// regions are mirrored).
pub proof fn lemma_ram_cell_determines_read(s: BusState, a: u32, b: u32)
    requires
        in_ram(a),
        in_ram(b),
        ram_cell(a) == ram_cell(b),
    ensures
        s.read_byte(a) == s.read_byte(b),
{
}

/// IWRAM repeats every 32 KB.
pub proof fn lemma_iwram_mirror(s: BusState, a: u32)
    requires
        in_iwram(a),
        in_iwram((a + 0x8000) as u32),
    ensures
        s.read_byte(a) == s.read_byte((a + 0x8000) as u32),
{
}

/// EWRAM repeats every 256 KB.
pub proof fn lemma_ewram_mirror(s: BusState, a: u32)
    requires
        in_ewram(a),
        in_ewram((a + 0x40000) as u32),
    ensures
        s.read_byte(a) == s.read_byte((a + 0x40000) as u32),
{
}

/// In each 128 KB block of the VRAM space the last 32 KB mirror the 32 KB
/// before them (VRAM holds 96 KB).
pub proof fn lemma_vram_upper_mirror(s: BusState, a: u32)
    requires
        in_vram(a),
        a % 0x20000 >= 0x18000,
    ensures
        s.read_byte(a) == s.read_byte((a - 0x8000) as u32),
{
    assert(a % 0x20000 >= 0x18000 ==> ((a - 0x8000) as u32) % 0x20000 == a % 0x20000 - 0x8000)
        by (bit_vector);
}

/// The cartridge ROM appears three times, at 0x08000000, 0x0A000000 and
/// 0x0C000000.
pub proof fn lemma_rom_mirrors(s: BusState, k: u32)
    requires
        k < 0x0200_0000,
    ensures
        s.read_byte((0x0800_0000 + k) as u32) == s.read_byte((0x0A00_0000 + k) as u32),
        s.read_byte((0x0800_0000 + k) as u32) == s.read_byte((0x0C00_0000 + k) as u32),
{
    assert(k < 0x0200_0000 ==> ((0x0800_0000 + k) as u32) % 0x0200_0000 == k && ((0x0A00_0000
        + k) as u32) % 0x0200_0000 == k && ((0x0C00_0000 + k) as u32) % 0x0200_0000 == k)
        by (bit_vector);
}

/// BIOS, ROM and unmapped space ignore writes: the bus is unchanged.
pub proof fn lemma_read_only_write(s: BusState, a: u32, v: u8)
    requires
        !in_ram(a),
        !in_io(a),
    ensures
        s.write_byte_ok(a, v),
        s.write_byte_result(a, v) == s,
{
    assert(s.write_byte_f(a, v, 0) is Some);
}

/// The four bytes of an aligned RAM word lie in the same region, in four
/// distinct consecutive cells.
proof fn lemma_aligned_ram_word(a: u32, k: u32)
    requires
        in_ram(a),
        a % 4 == 0,
        k < 4,
    ensures
        in_ram((a + k) as u32),
        ram_cell((a + k) as u32).0 == ram_cell(a).0,
        ram_cell((a + k) as u32).1 == ram_cell(a).1 + k,
{
    assert(a % 4 == 0 && k < 4 ==> (a + k) % 0x40000 == a % 0x40000 + k && (a + k) % 0x8000 == a
        % 0x8000 + k && (a + k) % 0x400 == a % 0x400 + k && (a + k) % 0x20000 == a % 0x20000 + k
        && (a % 0x20000) % 4 == 0) by (bit_vector);
}

/// A word written to an aligned RAM address reads back unchanged.
pub proof fn lemma_ram_word_write_then_read(s: BusState, a: u32, v: u32)
    requires
        s.wf(),
        in_ram(a),
        a % 4 == 0,
    ensures
        s.write_word_ok(a, v),
        s.write_word_result(a, v).wf(),
        s.write_word_result(a, v).read_word(a) == v,
{
    lemma_aligned_ram_word(a, 0);
    lemma_aligned_ram_word(a, 1);
    lemma_aligned_ram_word(a, 2);
    lemma_aligned_ram_word(a, 3);
    let a1 = (a + 1) as u32;
    let a2 = (a + 2) as u32;
    let a3 = (a + 3) as u32;
    let b0 = v as u8;
    let b1 = (v >> 8u32) as u8;
    let b2 = (v >> 16u32) as u8;
    let b3 = (v >> 24u32) as u8;
    let s1 = s.store_byte(a, b0);
    let s2 = s1.store_byte(a1, b1);
    let s3 = s2.store_byte(a2, b2);
    let s4 = s3.store_byte(a3, b3);
    lemma_store_ram(s, a, a, b0);
    lemma_store_ram(s1, a1, a, b1);
    lemma_store_ram(s1, a1, a1, b1);
    lemma_store_ram(s2, a2, a, b2);
    lemma_store_ram(s2, a2, a1, b2);
    lemma_store_ram(s2, a2, a2, b2);
    lemma_store_ram(s3, a3, a, b3);
    lemma_store_ram(s3, a3, a1, b3);
    lemma_store_ram(s3, a3, a2, b3);
    lemma_store_ram(s3, a3, a3, b3);
    assert forall|f: nat| s.write_word_f(a, v, f) == Some(s4) by {
        lemma_ram_write_f(s, a, b0, f);
        lemma_ram_write_f(s1, a1, b1, f);
        lemma_ram_write_f(s2, a2, b2, f);
        lemma_ram_write_f(s3, a3, b3, f);
    }
    assert(s.write_word_f(a, v, 0) is Some);
    assert(s4.read_word(a) == le32(b0, b1, b2, b3));
    assert(le32(v as u8, (v >> 8u32) as u8, (v >> 16u32) as u8, (v >> 24u32) as u8) == v)
        by (bit_vector);
}

// ---------------------------------------------------------------------------
// What bus operations leave unchanged
// ---------------------------------------------------------------------------

/// `t` differs from `s` at most in memory, registers, DMA and timer state:
/// region sizes, the cycle counter, KEYINPUT, BIOS and ROM are kept.
pub open spec fn frame(s: BusState, t: BusState) -> bool {
    &&& t.wf()
    &&& t.cycles == s.cycles
    &&& t.keyinput == s.keyinput
    &&& t.bios == s.bios
    &&& t.rom == s.rom
}

proof fn lemma_store_frame(s: BusState, a: u32, v: u8)
    requires
        s.wf(),
    ensures
        frame(s, s.store_byte(a, v)),
{
}

proof fn lemma_write_byte_frame(s: BusState, a: u32, v: u8, f: nat)
    requires
        s.wf(),
        s.write_byte_f(a, v, f) is Some,
    ensures
        frame(s, s.write_byte_f(a, v, f)->0),
    decreases f, 0nat, 3nat,
{
    let s1 = s.store_byte(a, v);
    lemma_store_frame(s, a, v);
    if BusState::starts_dma_check(a) {
        lemma_dma_control_write_frame(s1, ((a % 0x400) - 0xBB) / 12, f);
    }
}

proof fn lemma_write_halfword_frame(s: BusState, a: u32, v: u16, f: nat)
    requires
        s.wf(),
        s.write_halfword_f(a, v, f) is Some,
    ensures
        frame(s, s.write_halfword_f(a, v, f)->0),
    decreases f, 0nat, 4nat,
{
    lemma_write_byte_frame(s, a, v as u8, f);
    let s1 = s.write_byte_f(a, v as u8, f)->0;
    lemma_write_byte_frame(s1, (a + 1) as u32, (v >> 8u16) as u8, f);
}

proof fn lemma_write_word_frame(s: BusState, a: u32, v: u32, f: nat)
    requires
        s.wf(),
        s.write_word_f(a, v, f) is Some,
    ensures
        frame(s, s.write_word_f(a, v, f)->0),
    decreases f, 0nat, 4nat,
{
    lemma_write_byte_frame(s, a, v as u8, f);
    let s1 = s.write_byte_f(a, v as u8, f)->0;
    lemma_write_byte_frame(s1, (a + 1) as u32, (v >> 8u32) as u8, f);
    let s2 = s1.write_byte_f((a + 1) as u32, (v >> 8u32) as u8, f)->0;
    lemma_write_byte_frame(s2, (a + 2) as u32, (v >> 16u32) as u8, f);
    let s3 = s2.write_byte_f((a + 2) as u32, (v >> 16u32) as u8, f)->0;
    lemma_write_byte_frame(s3, (a + 3) as u32, (v >> 24u32) as u8, f);
}

proof fn lemma_dma_control_write_frame(s: BusState, ch: int, f: nat)
    requires
        s.wf(),
        0 <= ch < 4,
        s.dma_control_write_f(ch, f) is Some,
    ensures
        frame(s, s.dma_control_write_f(ch, f)->0),
    decreases f, 0nat, 2nat,
{
    let base = 0xB0 + ch * 12;
    let control = s.io_u16(base + 10);
    let d = s.dma[ch];
    if !dma_enabled(d.control) && dma_enabled(control) {
        let sad = s.io_u32(base);
        let dad = s.io_u32(base + 4);
        let count = s.io_u16(base + 8);
        let sad_mask: u32 = if ch == 0 {
            0x07FF_FFFF
        } else {
            0x0FFF_FFFF
        };
        let dad_mask: u32 = if ch == 3 {
            0x0FFF_FFFF
        } else {
            0x07FF_FFFF
        };
        let nd = DmaChannel {
            sad: sad & sad_mask,
            dad: dad & dad_mask,
            count,
            control,
            internal_sad: sad & sad_mask,
            internal_dad: dad & dad_mask,
        };
        let s2 = BusState { dma: s.dma.update(ch, nd), ..s };
        if dma_start_timing(control) == 0 {
            lemma_run_dma_frame(s2, ch, f);
        }
    }
}

proof fn lemma_run_dma_frame(s: BusState, ch: int, f: nat)
    requires
        s.wf(),
        0 <= ch < 4,
        s.run_dma_f(ch, f) is Some,
    ensures
        frame(s, s.run_dma_f(ch, f)->0),
    decreases f, 0nat, 1nat,
{
    let d = s.dma[ch];
    lemma_dma_units_frame(
        s,
        dma_transfer_32(d.control),
        dma_src_control(d.control),
        dma_dest_control(d.control),
        d.internal_sad,
        d.internal_dad,
        dma_unit_count(ch, d.count),
        (f - 1) as nat,
    );
}

proof fn lemma_dma_units_frame(
    s: BusState,
    t32: bool,
    sc: u16,
    dc: u16,
    src: u32,
    dst: u32,
    n: nat,
    f: nat,
)
    requires
        s.wf(),
        s.dma_units_f(t32, sc, dc, src, dst, n, f) is Some,
    ensures
        frame(s, (s.dma_units_f(t32, sc, dc, src, dst, n, f)->0).0),
    decreases f, n, 0nat,
{
    if n > 0 {
        let step: u32 = if t32 {
            4
        } else {
            2
        };
        let s1 = if t32 {
            lemma_write_word_frame(s, dst, s.read_word(src), f);
            s.write_word_f(dst, s.read_word(src), f)->0
        } else {
            lemma_write_halfword_frame(s, dst, s.read_halfword(src), f);
            s.write_halfword_f(dst, s.read_halfword(src), f)->0
        };
        lemma_dma_units_frame(
            s1,
            t32,
            sc,
            dc,
            dma_next_src(sc, src, step),
            dma_next_dst(dc, dst, step),
            (n - 1) as nat,
            f,
        );
    }
}

proof fn lemma_check_dma_frame(s: BusState, ch: int, timing: u16, f: nat)
    requires
        s.wf(),
        0 <= ch,
        s.check_dma_from(ch, timing, f) is Some,
    ensures
        frame(s, s.check_dma_from(ch, timing, f)->0),
    decreases 4 - ch,
{
    if ch < 4 {
        let d = s.dma[ch];
        if dma_enabled(d.control) && dma_start_timing(d.control) == timing {
            lemma_run_dma_frame(s, ch, f);
            lemma_check_dma_frame(s.run_dma_f(ch, f)->0, ch + 1, timing, f);
        } else {
            lemma_check_dma_frame(s, ch + 1, timing, f);
        }
    }
}

pub(crate) proof fn lemma_timer_add_frame(s: BusState, idx: int, ticks: u32)
    requires
        s.wf(),
        0 <= idx < 4,
        s.timer_add_f(idx, ticks) is Some,
    ensures
        frame(s, s.timer_add_f(idx, ticks)->0),
    decreases 4 - idx,
{
    let t = s.timers[idx];
    let nv = t.counter as u32 + ticks;
    if nv > 0xFFFF {
        let remaining = nv - 0x10000;
        let reload = t.reload as u32;
        let range = 0x10000 - reload;
        let overflows = (1 + remaining / range) as u32;
        let s1 = BusState {
            timers: s.timers.update(idx, Timer { counter: (reload + remaining % range) as u16, ..t }),
            ..s
        };
        let control = s1.io[0x102 + idx * 4];
        let s2 = if control & 0x40 != 0 {
            BusState { io: s1.io.update(0x202, s1.io[0x202] | (1u8 << ((3 + idx) as u8))), ..s1 }
        } else {
            s1
        };
        if idx < 3 {
            let next = s2.io[0x102 + (idx + 1) * 4];
            if next & 0x80 != 0 && next & 0x04 != 0 {
                lemma_timer_add_frame(s2, idx + 1, overflows);
            }
        }
    }
}

proof fn lemma_timers_frame(s: BusState, i: int, cycles: u32)
    requires
        s.wf(),
        0 <= i,
        s.timers_from(i, cycles) is Some,
    ensures
        frame(s, s.timers_from(i, cycles)->0),
    decreases 4 - i,
{
    if i < 4 {
        let control = s.io[0x102 + i * 4];
        if !(control & 0x80 == 0 || (control & 0x04 != 0 && i > 0)) {
            let t = s.timers[i];
            let pre = prescaler_divider(control & 3);
            let pc = (t.prescaler_counter + cycles) as u32;
            let s1 = BusState {
                timers: s.timers.update(i, Timer { prescaler_counter: pc % pre, ..t }),
                ..s
            };
            if pc / pre > 0 {
                lemma_timer_add_frame(s1, i, pc / pre);
            }
        }
        lemma_timers_frame(s.timer_step(i, cycles)->0, i + 1, cycles);
    }
}

/// A tick advances the cycle counter by exactly `cycles` (wrapping) and keeps
/// KEYINPUT, BIOS, ROM and the region sizes.
pub proof fn lemma_tick_advances_clock(s: BusState, cycles: u32, f: nat)
    requires
        s.wf(),
        s.tick_f(cycles, f) is Some,
    ensures
        (s.tick_f(cycles, f)->0).cycles == vstd::wrapping::u32_specs::wrapping_add(s.cycles, cycles),
        (s.tick_f(cycles, f)->0).wf(),
        (s.tick_f(cycles, f)->0).keyinput == s.keyinput,
        (s.tick_f(cycles, f)->0).bios == s.bios,
        (s.tick_f(cycles, f)->0).rom == s.rom,
{
    reveal(BusState::tick_f);
    let s1 = s.display_update(cycles);
    let old_ds = s.io[4];
    let ds = s1.io[4];
    let s2 = if ds & 1 != 0 && old_ds & 1 == 0 {
        lemma_check_dma_frame(s1, 0, 1, f);
        s1.check_dma_from(0, 1, f)->0
    } else {
        s1
    };
    let s3 = if ds & 2 != 0 && old_ds & 2 == 0 {
        lemma_check_dma_frame(s2, 0, 2, f);
        s2.check_dma_from(0, 2, f)->0
    } else {
        s2
    };
    lemma_timers_frame(s3.raise_display_irqs(old_ds, ds), 0, cycles);
}

/// Writes never change BIOS or ROM, whatever DMA they start.
pub proof fn lemma_write_keeps_bios_and_rom(s: BusState, a: u32, v: u8)
    requires
        s.wf(),
        s.write_byte_ok(a, v),
    ensures
        s.write_byte_result(a, v).bios == s.bios,
        s.write_byte_result(a, v).rom == s.rom,
        s.write_byte_result(a, v).wf(),
{
    let f = choose|f: nat| (#[trigger] s.write_byte_f(a, v, f)) is Some;
    lemma_write_byte_frame(s, a, v, f);
}

/// Frames of the write chain, for callers in other modules.
pub proof fn lemma_write_word_keeps_frame(s: BusState, a: u32, v: u32, f: nat)
    requires
        s.wf(),
        s.write_word_f(a, v, f) is Some,
    ensures
        frame(s, s.write_word_f(a, v, f)->0),
{
    lemma_write_word_frame(s, a, v, f);
}

pub proof fn lemma_write_halfword_keeps_frame(s: BusState, a: u32, v: u16, f: nat)
    requires
        s.wf(),
        s.write_halfword_f(a, v, f) is Some,
    ensures
        frame(s, s.write_halfword_f(a, v, f)->0),
{
    lemma_write_halfword_frame(s, a, v, f);
}

pub proof fn lemma_write_byte_keeps_frame(s: BusState, a: u32, v: u8, f: nat)
    requires
        s.wf(),
        s.write_byte_f(a, v, f) is Some,
    ensures
        frame(s, s.write_byte_f(a, v, f)->0),
{
    lemma_write_byte_frame(s, a, v, f);
}

} // verus!
