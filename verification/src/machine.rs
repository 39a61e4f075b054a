//! Running the machine a frame at a time: the CPU steps and the bus ticks
//! until a frame's worth of cycles has passed on the bus clock, with the
//! buttons held as given.
use vstd::prelude::*;
use crate::bus::{Bus, BusState, CYCLES_PER_FRAME, lemma_tick_advances_clock};
use crate::cpu::{Cpu, CpuState};
use crate::bits::word_byte;
use vstd::arithmetic::power2::pow2;

verus! {

/// KEYINPUT with no button pressed (the register is active-low).
pub const KEYS_RELEASED: u16 = 0x03FF;

/// Cycles elapsed on the (wrapping) bus clock since `start`.
pub open spec fn elapsed(b: BusState, start: u32) -> u32 {
    vstd::wrapping::u32_specs::wrapping_sub(b.cycles, start)
}

/// Runs the CPU from `(c, b)` until a frame's cycles have elapsed since
/// `start` or the CPU halts (a step taking 0 cycles), ticking the bus by
/// each step's cycles; `None` when a step or tick is undefined or `fuel`
/// steps do not suffice.
pub open spec fn run_cpu_f(c: CpuState, b: BusState, start: u32, fuel: nat) -> Option<
    (CpuState, BusState),
>
    decreases fuel,
{
    if elapsed(b, start) >= CYCLES_PER_FRAME {
        Some((c, b))
    } else if fuel == 0 || !c.step_ok(b) {
        None
    } else {
        let (c2, b2, n) = c.step_result(b);
        if n == 0 {
            Some((c2, b2))
        } else if !b2.tick_ok(n) {
            None
        } else {
            run_cpu_f(c2, b2.tick_result(n), start, (fuel - 1) as nat)
        }
    }
}

/// Ticks the bus one cycle at a time until a frame's cycles have elapsed
/// since `start`; `None` when a tick is undefined or `fuel` ticks do not
/// suffice.
pub open spec fn pad_frame_f(b: BusState, start: u32, fuel: nat) -> Option<BusState>
    decreases fuel,
{
    if elapsed(b, start) >= CYCLES_PER_FRAME {
        Some(b)
    } else if fuel == 0 || !b.tick_ok(1) {
        None
    } else {
        pad_frame_f(b.tick_result(1), start, (fuel - 1) as nat)
    }
}

/// One frame with KEYINPUT set to `keyinput`: the CPU runs until the frame's
/// cycles have elapsed (or it halts), then the bus is ticked to the frame's
/// end.
pub open spec fn frame_f(c: CpuState, b: BusState, keyinput: u16, fuel: nat) -> Option<
    (CpuState, BusState),
> {
    let b0 = BusState { keyinput, ..b };
    match run_cpu_f(c, b0, b.cycles, fuel) {
        Some((c1, b1)) => match pad_frame_f(b1, b.cycles, CYCLES_PER_FRAME as nat) {
            Some(b2) => Some((c1, b2)),
            None => None,
        },
        None => None,
    }
}

/// Whether the frame from `(c, b)` is defined for some step budget.
pub open spec fn frame_ok(c: CpuState, b: BusState, keyinput: u16) -> bool {
    exists|f: nat| (#[trigger] frame_f(c, b, keyinput, f)) is Some
}

pub open spec fn frame_result(c: CpuState, b: BusState, keyinput: u16) -> (CpuState, BusState) {
    frame_f(c, b, keyinput, choose|f: nat| (#[trigger] frame_f(c, b, keyinput, f)) is Some)->0
}

/// `n` frames with the same KEYINPUT; `None` when one of them is undefined.
pub open spec fn frames(c: CpuState, b: BusState, keyinput: u16, n: nat) -> Option<
    (CpuState, BusState),
>
    decreases n,
{
    if n == 0 {
        Some((c, b))
    } else if !frame_ok(c, b, keyinput) {
        None
    } else {
        let (c1, b1) = frame_result(c, b, keyinput);
        frames(c1, b1, keyinput, (n - 1) as nat)
    }
}

/// Runs the CPU for the rest of the frame that started at bus cycle `start`.
fn run_cpu_for_frame(cpu: &mut Cpu, bus: &mut Bus, start: u32, Ghost(fuel): Ghost<nat>)
    requires
        old(bus)@.wf(),
        run_cpu_f(old(cpu)@, old(bus)@, start, fuel) is Some,
    ensures
        final(bus)@.wf(),
        Some((final(cpu)@, final(bus)@)) == run_cpu_f(old(cpu)@, old(bus)@, start, fuel),
{
    let ghost target = run_cpu_f(cpu@, bus@, start, fuel);
    let ghost mut f = fuel;
    let mut halted = false;
    while !halted && bus.cycles.wrapping_sub(start) < CYCLES_PER_FRAME
        invariant
            bus@.wf(),
            halted ==> Some((cpu@, bus@)) == target,
            !halted ==> run_cpu_f(cpu@, bus@, start, f) == target,
            target is Some,
        decreases f, if halted {
            0int
        } else {
            1int
        },
    {
        let cycles = cpu.step(bus);
        if cycles == 0 {
            halted = true;
        } else {
            bus.tick(cycles);
            proof {
                f = (f - 1) as nat;
            }
        }
    }
}

/// Ticks the bus to the end of the frame that started at bus cycle `start`.
fn pad_frame(bus: &mut Bus, start: u32)
    requires
        old(bus)@.wf(),
        pad_frame_f(old(bus)@, start, CYCLES_PER_FRAME as nat) is Some,
    ensures
        final(bus)@.wf(),
        Some(final(bus)@) == pad_frame_f(old(bus)@, start, CYCLES_PER_FRAME as nat),
{
    let ghost target = pad_frame_f(bus@, start, CYCLES_PER_FRAME as nat);
    let ghost mut f: nat = CYCLES_PER_FRAME as nat;
    while bus.cycles.wrapping_sub(start) < CYCLES_PER_FRAME
        invariant
            bus@.wf(),
            pad_frame_f(bus@, start, f) == target,
            target is Some,
        decreases f,
    {
        bus.tick(1);
        proof {
            f = (f - 1) as nat;
        }
    }
}

/// Runs one frame with the buttons held as `keyinput` (active-low).
pub fn run_frame(cpu: &mut Cpu, bus: &mut Bus, keyinput: u16)
    requires
        old(bus)@.wf(),
        frame_ok(old(cpu)@, old(bus)@, keyinput),
    ensures
        final(bus)@.wf(),
        (final(cpu)@, final(bus)@) == frame_result(old(cpu)@, old(bus)@, keyinput),
{
    let ghost c = cpu@;
    let ghost b = bus@;
    let ghost fuel = choose|f: nat| (#[trigger] frame_f(c, b, keyinput, f)) is Some;
    bus.keyinput = keyinput;
    let frame_start = bus.cycles;
    assert(bus@ == BusState { keyinput, ..b });
    run_cpu_for_frame(cpu, bus, frame_start, Ghost(fuel));
    pad_frame(bus, frame_start);
}

/// Runs `num_frames` frames with the buttons held as `keyinput`.
pub fn run_frames(cpu: &mut Cpu, bus: &mut Bus, keyinput: u16, num_frames: u32)
    requires
        old(bus)@.wf(),
        frames(old(cpu)@, old(bus)@, keyinput, num_frames as nat) is Some,
    ensures
        final(bus)@.wf(),
        Some((final(cpu)@, final(bus)@)) == frames(
            old(cpu)@,
            old(bus)@,
            keyinput,
            num_frames as nat,
        ),
{
    let ghost target = frames(cpu@, bus@, keyinput, num_frames as nat);
    let mut k: u32 = 0;
    while k < num_frames
        invariant
            k <= num_frames,
            bus@.wf(),
            frames(cpu@, bus@, keyinput, (num_frames - k) as nat) == target,
            target is Some,
        decreases num_frames - k,
    {
        run_frame(cpu, bus, keyinput);
        k = k + 1;
    }
}

/// Holds a button (given as its KEYINPUT bit) for `hold` frames, then
/// releases all buttons for `wait` frames.
pub fn press_button(cpu: &mut Cpu, bus: &mut Bus, button_bit: u16, hold: u32, wait: u32)
    requires
        old(bus)@.wf(),
        frames(old(cpu)@, old(bus)@, KEYS_RELEASED & !button_bit, hold as nat) matches Some(
            cb,
        ) && frames(cb.0, cb.1, KEYS_RELEASED, wait as nat) is Some,
    ensures
        final(bus)@.wf(),
        Some((final(cpu)@, final(bus)@)) == frames(
            (frames(old(cpu)@, old(bus)@, KEYS_RELEASED & !button_bit, hold as nat)->0).0,
            (frames(old(cpu)@, old(bus)@, KEYS_RELEASED & !button_bit, hold as nat)->0).1,
            KEYS_RELEASED,
            wait as nat,
        ),
{
    run_frames(cpu, bus, KEYS_RELEASED & !button_bit, hold);
    run_frames(cpu, bus, KEYS_RELEASED, wait);
}

/// A frame always ends at least a frame's cycles after it started.
pub proof fn lemma_frame_reaches_boundary(c: CpuState, b: BusState, keyinput: u16)
    requires
        frame_ok(c, b, keyinput),
    ensures
        elapsed(frame_result(c, b, keyinput).1, b.cycles) >= CYCLES_PER_FRAME,
{
    let f = choose|f: nat| (#[trigger] frame_f(c, b, keyinput, f)) is Some;
    let b0 = BusState { keyinput, ..b };
    let (c1, b1) = run_cpu_f(c, b0, b.cycles, f)->0;
    lemma_pad_reaches_boundary(b1, b.cycles, CYCLES_PER_FRAME as nat);
}

proof fn lemma_pad_reaches_boundary(b: BusState, start: u32, fuel: nat)
    requires
        pad_frame_f(b, start, fuel) is Some,
    ensures
        elapsed(pad_frame_f(b, start, fuel)->0, start) >= CYCLES_PER_FRAME,
    decreases fuel,
{
    if elapsed(b, start) < CYCLES_PER_FRAME {
        lemma_pad_reaches_boundary(b.tick_result(1), start, (fuel - 1) as nat);
    }
}

/// Writes `value` little-endian at `offset`.
pub fn write_word(buf: &mut Vec<u8>, offset: usize, value: u32)
    requires
        offset + 4 <= old(buf)@.len(),
    ensures
        final(buf)@.len() == old(buf)@.len(),
        forall|i: int|
            0 <= i < old(buf)@.len() ==> #[trigger] final(buf)@[i] == if offset <= i < offset + 4 {
                word_byte(value, i - offset)
            } else {
                old(buf)@[i]
            },
{
    let len = buf.len();
    buf.set(offset, (value % 0x100) as u8);
    buf.set(offset + 1, ((value / 0x100) % 0x100) as u8);
    buf.set(offset + 2, ((value / 0x1_0000) % 0x100) as u8);
    buf.set(offset + 3, ((value / 0x100_0000) % 0x100) as u8);
}

/// Title stored in the built-in test ROM's header ("TURTLE TEST" and a NUL).
pub open spec fn test_rom_title() -> Seq<u8> {
    seq![0x54u8, 0x55, 0x52, 0x54, 0x4C, 0x45, 0x20, 0x54, 0x45, 0x53, 0x54, 0x00]
}

/// The built-in test program: sums 1 to 10 into R2, stores it to
/// 0x03000000 and halts on the zero word.
pub open spec fn test_program() -> Seq<u32> {
    seq![
        0xE3A0_0000u32,  // MOV R0, #0
        0xE3A0_100A,  // MOV R1, #10
        0xE3A0_2000,  // MOV R2, #0
        0xE280_0001,  // ADD R0, R0, #1
        0xE082_2000,  // ADD R2, R2, R0
        0xE150_0001,  // CMP R0, R1
        0x1AFF_FFFB,  // BNE loop
        0xE3A0_3003,  // MOV R3, #3
        0xE1A0_3C03,  // MOV R3, R3, LSL #24
        0xE583_2000,  // STR R2, [R3]
        0x0000_0000,  // halt
    ]
}

/// Byte `i` of the built-in test ROM: a branch at 0 to the program at 0xC0,
/// the title at 0xA0, zeros elsewhere.
pub open spec fn test_rom_byte(i: int) -> u8 {
    if 0 <= i < 4 {
        word_byte(0xEA00_002E, i)
    } else if 0xA0 <= i < 0xAC {
        test_rom_title()[i - 0xA0]
    } else if 0xC0 <= i < 0xEC {
        word_byte(test_program()[(i - 0xC0) / 4], (i - 0xC0) % 4)
    } else {
        0
    }
}

/// Builds the built-in 256-byte test ROM.
pub fn make_test_rom() -> (rom: Vec<u8>)
    ensures
        rom@.len() == 0x100,
        forall|i: int| 0 <= i < 0x100 ==> #[trigger] rom@[i] == test_rom_byte(i),
{
    let mut rom = vec![0u8; 0x100];
    write_word(&mut rom, 0, 0xEA00_002E);
    let title: [u8; 12] = [0x54, 0x55, 0x52, 0x54, 0x4C, 0x45, 0x20, 0x54, 0x45, 0x53, 0x54, 0x00];
    assert(title@ =~= test_rom_title());
    let mut j: usize = 0;
    while j < 12
        invariant
            j <= 12,
            title@ == test_rom_title(),
            rom@.len() == 0x100,
            forall|i: int|
                0 <= i < 0x100 ==> #[trigger] rom@[i] == if 0 <= i < 4 {
                    word_byte(0xEA00_002E, i)
                } else if 0xA0 <= i < 0xA0 + j {
                    test_rom_title()[i - 0xA0]
                } else {
                    0
                },
        decreases 12 - j,
    {
        rom.set(0xA0 + j, title[j]);
        j = j + 1;
    }
    let program: [u32; 11] = [
        0xE3A0_0000,
        0xE3A0_100A,
        0xE3A0_2000,
        0xE280_0001,
        0xE082_2000,
        0xE150_0001,
        0x1AFF_FFFB,
        0xE3A0_3003,
        0xE1A0_3C03,
        0xE583_2000,
        0x0000_0000,
    ];
    assert(program@ =~= test_program());
    let mut k: usize = 0;
    while k < 11
        invariant
            k <= 11,
            program@ == test_program(),
            rom@.len() == 0x100,
            forall|i: int|
                0 <= i < 0x100 ==> #[trigger] rom@[i] == if 0xC0 <= i < 0xC0 + 4 * k {
                    test_rom_byte(i)
                } else if 0xC0 <= i {
                    0
                } else {
                    test_rom_byte(i)
                },
        decreases 11 - k,
    {
        write_word(&mut rom, 0xC0 + 4 * k, program[k]);
        assert forall|i: int| 0xC0 + 4 * k <= i < 0xC0 + 4 * k + 4 implies #[trigger] test_rom_byte(
            i,
        ) == word_byte(program@[k as int], i - (0xC0 + 4 * k)) by {
            vstd::arithmetic::div_mod::lemma_fundamental_div_mod_converse(
                i - 0xC0,
                4,
                k as int,
                i - (0xC0 + 4 * k),
            );
        }
        k = k + 1;
    }
    rom
}

/// KEYINPUT (active-low) for the first `n` buttons in register order (A, B,
/// Select, Start, Right, Left, Up, Down, R, L): bit `b` is set exactly when
/// button `b` is not pressed.
pub open spec fn keyinput_spec(pressed: Seq<bool>, n: int) -> int
    decreases n,
{
    if n <= 0 {
        0
    } else {
        keyinput_spec(pressed, n - 1) + if pressed[n - 1] {
            0
        } else {
            pow2((n - 1) as nat) as int
        }
    }
}

proof fn lemma_keyinput_bound(pressed: Seq<bool>, n: int)
    requires
        0 <= n,
    ensures
        0 <= keyinput_spec(pressed, n) < pow2(n as nat),
    decreases n,
{
    vstd::arithmetic::power2::lemma2_to64();
    if n > 0 {
        lemma_keyinput_bound(pressed, n - 1);
        vstd::arithmetic::power2::lemma_pow2_unfold(n as nat);
    }
}

/// KEYINPUT for the ten buttons' pressed state, in register order.
pub fn keyinput_from_buttons(pressed: &[bool; 10]) -> (k: u16)
    ensures
        k == keyinput_spec(pressed@, 10),
{
    let mut keyinput: u16 = 0;
    let mut bit: u16 = 1;
    proof {
        vstd::arithmetic::power2::lemma2_to64();
    }
    let mut b: usize = 0;
    while b < 10
        invariant
            b <= 10,
            b < 10 ==> bit == pow2(b as nat),
            keyinput == keyinput_spec(pressed@, b as int),
        decreases 10 - b,
    {
        proof {
            lemma_keyinput_bound(pressed@, b as int);
            vstd::arithmetic::power2::lemma_pow2_unfold((b + 1) as nat);
            vstd::arithmetic::power2::lemma2_to64();
        }
        if !pressed[b] {
            keyinput = keyinput + bit;
        }
        if b < 9 {
            bit = bit * 2;
        }
        b = b + 1;
    }
    keyinput
}

/// Watches the program counter of a traced run for a tight loop: the same
/// instruction coming up again and again.
pub struct LoopDetector {
    pub last_pc: u32,
    /// Times in a row the last PC has come up again.
    pub repeats: u32,
}

impl LoopDetector {
    pub fn new() -> (d: Self)
        ensures
            d.last_pc == 0,
            d.repeats == 0,
    {
        LoopDetector { last_pc: 0, repeats: 0 }
    }

    /// Records the PC of the next instruction; `true` once it has come up
    /// more than twice again in a row.
    pub fn observe(&mut self, pc: u32) -> (stuck: bool)
        requires
            old(self).repeats < u32::MAX,
        ensures
            final(self).last_pc == pc,
            final(self).repeats == if pc == old(self).last_pc {
                old(self).repeats + 1
            } else {
                0
            },
            stuck == (final(self).repeats > 2),
    {
        if pc == self.last_pc {
            self.repeats = self.repeats + 1;
        } else {
            self.repeats = 0;
        }
        self.last_pc = pc;
        self.repeats > 2
    }
}

} // verus!
