//! Interrupt entry, the BIOS services reached through SWI, and the
//! fetch-decode-execute step in ARM and THUMB state.
use vstd::prelude::*;
use crate::bus::{Bus, BusState, CYCLES_PER_FRAME, lemma_tick_advances_clock};
use crate::bits::{sext32, lemma_not_u32};
use super::{Cpu, CpuState, BANK_IRQ, R_PC, R_LR, CPSR_T};
use super::arm::{wadd, wsub, mod32, popcount, count_bits};

verus! {

broadcast use crate::bits::group_and_bounds;

// ---------------------------------------------------------------------------
// Arithmetic of the BIOS services
// ---------------------------------------------------------------------------

pub open spec fn abs(x: int) -> int {
    if x < 0 {
        -x
    } else {
        x
    }
}

/// Integer division rounding toward zero (`d != 0`).
pub open spec fn div_trunc(n: int, d: int) -> int {
    if (n >= 0) == (d >= 0) {
        abs(n) / abs(d)
    } else {
        -(abs(n) / abs(d))
    }
}

/// Remainder of [`div_trunc`]: it has the sign of the dividend.
pub open spec fn rem_trunc(n: int, d: int) -> int {
    if n >= 0 {
        abs(n) % abs(d)
    } else {
        -(abs(n) % abs(d))
    }
}

/// Whether `r` is the integer square root of `x`.
pub open spec fn is_isqrt(x: int, r: int) -> bool {
    0 <= r && r * r <= x && x < (r + 1) * (r + 1)
}

/// Integer square root.
pub fn isqrt(x: u32) -> (r: u32)
    ensures
        is_isqrt(x as int, r as int),
{
    let mut lo: u64 = 0;
    let mut hi: u64 = 0x1_0000;
    assert(0x1_0000 * 0x1_0000 == 0x1_0000_0000) by (nonlinear_arith);
    while hi - lo > 1
        invariant
            lo < hi <= 0x1_0000,
            lo * lo <= x,
            x < hi * hi,
        decreases hi - lo,
    {
        let mid = lo + (hi - lo) / 2;
        assert(mid * mid <= 0x1_0000 * 0x1_0000) by (nonlinear_arith)
            requires
                mid <= 0x1_0000,
        ;
        if mid * mid <= x as u64 {
            lo = mid;
        } else {
            hi = mid;
        }
    }
    lo as u32
}

// ---------------------------------------------------------------------------
// Specification of the BIOS services
// ---------------------------------------------------------------------------

/// Halt: tick the bus one cycle at a time until an interrupt is pending, at
/// most `n` times.
pub open spec fn halt_loop(b: BusState, n: nat, fuel: nat) -> Option<BusState>
    decreases n,
{
    if n == 0 {
        Some(b)
    } else {
        match b.tick_f(1, fuel) {
            None => None,
            Some(b1) => if b1.irq_pending() {
                Some(b1)
            } else {
                halt_loop(b1, (n - 1) as nat, fuel)
            },
        }
    }
}

/// IntrWait: tick the bus one cycle at a time until an interrupt is pending
/// or one frame's worth of cycles has passed (`n + 1` more ticks).
pub open spec fn wait_loop(b: BusState, n: nat, fuel: nat) -> Option<BusState>
    decreases n,
{
    match b.tick_f(1, fuel) {
        None => None,
        Some(b1) => if b1.irq_pending() || n == 0 {
            Some(b1)
        } else {
            wait_loop(b1, (n - 1) as nat, fuel)
        },
    }
}

/// Units `i..count` of CpuSet / CpuFastSet: copy (or fill with `fill_val`)
/// from `src` to `dst`, in words or halfwords.
pub open spec fn cpuset_loop(
    b: BusState,
    src: u32,
    dst: u32,
    is_fill: bool,
    fill_val: u32,
    is_32: bool,
    i: nat,
    count: nat,
    fuel: nat,
) -> Option<BusState>
    decreases count - i,
{
    if i >= count {
        Some(b)
    } else {
        let step: int = if is_32 {
            4
        } else {
            2
        };
        let s = wadd(src, (i * step) as u32);
        let d = wadd(dst, (i * step) as u32);
        let r = if is_32 {
            if !is_fill && s > 0xFFFF_FFFC {
                None
            } else {
                let v = if is_fill {
                    fill_val
                } else {
                    b.read_word(s)
                };
                b.write_word_f(d, v, fuel)
            }
        } else {
            if !is_fill && s > 0xFFFF_FFFE {
                None
            } else {
                let v = if is_fill {
                    fill_val as u16
                } else {
                    b.read_halfword(s)
                };
                b.write_halfword_f(d, v, fuel)
            }
        };
        match r {
            None => None,
            Some(b1) => cpuset_loop(b1, src, dst, is_fill, fill_val, is_32, i + 1, count, fuel),
        }
    }
}

/// `k` back-reference copies of LZ77 decompression: each byte is read from
/// `offset` bytes behind the destination.
pub open spec fn lz_copy(b: BusState, dp: u32, offset: u32, k: nat, fuel: nat) -> Option<
    (BusState, u32),
>
    decreases k,
{
    if k == 0 {
        Some((b, dp))
    } else if dp < offset || dp == 0xFFFF_FFFF {
        None
    } else {
        match b.write_byte_f(dp, b.read_byte((dp - offset) as u32), fuel) {
            None => None,
            Some(b1) => lz_copy(b1, (dp + 1) as u32, offset, (k - 1) as nat, fuel),
        }
    }
}

/// LZ77 decompression with `rem` output bytes to go and `bits` flag bits
/// left in `flags`; a new flag byte is read when none are left.
pub open spec fn lz_run(
    b: BusState,
    flags: u8,
    bits: nat,
    sp: u32,
    dp: u32,
    rem: u32,
    fuel: nat,
) -> Option<BusState>
    decreases 9 * rem + bits,
{
    if rem == 0 {
        Some(b)
    } else if bits == 0 {
        if sp == 0xFFFF_FFFF {
            None
        } else {
            lz_bit(b, b.read_byte(sp), 7, (sp + 1) as u32, dp, rem, fuel)
        }
    } else {
        lz_bit(b, flags, (bits - 1) as nat, sp, dp, rem, fuel)
    }
}

/// One LZ77 token, selected by flag bit `bit`: a literal byte, or a
/// back-reference of 3..=18 bytes at distance 1..=4096.
pub open spec fn lz_bit(
    b: BusState,
    flags: u8,
    bit: nat,
    sp: u32,
    dp: u32,
    rem: u32,
    fuel: nat,
) -> Option<BusState>
    decreases 9 * rem + bit - 8,
{
    if rem == 0 || bit >= 8 {
        None
    } else if flags & (1u8 << (bit as u8)) == 0 {
        if sp == 0xFFFF_FFFF || dp == 0xFFFF_FFFF {
            None
        } else {
            match b.write_byte_f(dp, b.read_byte(sp), fuel) {
                None => None,
                Some(b1) => lz_run(
                    b1,
                    flags,
                    bit,
                    (sp + 1) as u32,
                    (dp + 1) as u32,
                    (rem - 1) as u32,
                    fuel,
                ),
            }
        }
    } else {
        if sp > 0xFFFF_FFFD {
            None
        } else {
            let b1v = b.read_byte(sp) as u32;
            let b2v = b.read_byte((sp + 1) as u32) as u32;
            let length = ((b1v >> 4u32) & 0xF) + 3;
            let offset = (((b1v & 0xF) << 8u32) | b2v) + 1;
            let k = if length < rem {
                length
            } else {
                rem as int
            };
            match lz_copy(b, dp, offset as u32, k as nat, fuel) {
                None => None,
                Some(r) => lz_run(r.0, flags, bit, (sp + 2) as u32, r.1, (rem - k) as u32, fuel),
            }
        }
    }
}

impl CpuState {
    /// IRQ entry: bank switch to IRQ mode, SPSR_irq = old CPSR, LR = the
    /// address about to be fetched + 4, IRQs disabled, ARM state, PC = 0x18.
    pub open spec fn enter_irq(self) -> CpuState {
        let old_cpsr = self.cpsr;
        let return_addr = wadd(self.registers[15], 4);
        let c1 = self.switch_mode(old_cpsr & 0x1F, 0x12);
        let c2 = CpuState { spsr: c1.spsr.update(BANK_IRQ as int, old_cpsr), ..c1 }.set_reg(
            14,
            return_addr,
        );
        CpuState { cpsr: ((old_cpsr & !0xFFu32) | 0x12 | 0x80) & !CPSR_T, ..c2 }.set_reg(15, 0x18)
    }

    /// The BIOS service `function`: SoftReset (nothing), Halt, IntrWait /
    /// VBlankIntrWait, Div, Sqrt, CpuSet / CpuFastSet, LZ77UnComp; other
    /// numbers do nothing. Undefined when Div overflows or an address
    /// computation passes the top of the address space.
    pub open spec fn bios_call(self, b: BusState, function: u32, fuel: nat) -> Option<
        (CpuState, BusState),
    > {
        if function == 0x02 {
            match halt_loop(b, 280_896, fuel) {
                None => None,
                Some(b1) => Some((self, b1)),
            }
        } else if function == 0x04 || function == 0x05 {
            match wait_loop(b, 280_896, fuel) {
                None => None,
                Some(b1) => Some((self, b1)),
            }
        } else if function == 0x06 {
            let num = sext32(self.registers[0]);
            let den = sext32(self.registers[1]);
            if den == 0 {
                Some((self, b))
            } else if num == -0x8000_0000 && den == -1 {
                None
            } else {
                let q = div_trunc(num, den);
                Some(
                    (
                        self.set_reg(0, mod32(q)).set_reg(1, mod32(rem_trunc(num, den))).set_reg(
                            3,
                            abs(q) as u32,
                        ),
                        b,
                    ),
                )
            }
        } else if function == 0x08 {
            let x = self.registers[0] as int;
            Some((self.set_reg(0, (choose|r: int| is_isqrt(x, r)) as u32), b))
        } else if function == 0x0B || function == 0x0C {
            let src = self.registers[0];
            let dst = self.registers[1];
            let control = self.registers[2];
            let count = control & 0x000F_FFFF;
            let is_fill = (control >> 24u32) & 1 == 1;
            let is_32 = function == 0x0C || (control >> 26u32) & 1 == 1;
            if is_fill && ((is_32 && src > 0xFFFF_FFFC) || (!is_32 && src > 0xFFFF_FFFE)) {
                None
            } else {
                let fill_val: u32 = if !is_fill {
                    0
                } else if is_32 {
                    b.read_word(src)
                } else {
                    b.read_halfword(src) as u32
                };
                match cpuset_loop(b, src, dst, is_fill, fill_val, is_32, 0, count as nat, fuel) {
                    None => None,
                    Some(b1) => Some((self, b1)),
                }
            }
        } else if function == 0x11 || function == 0x12 {
            let src = self.registers[0];
            let dst = self.registers[1];
            if src > 0xFFFF_FFFB {
                None
            } else {
                let size = (b.read_word(src) >> 8u32) & 0x00FF_FFFF;
                match lz_run(b, 0, 0, (src + 4) as u32, dst, size, fuel) {
                    None => None,
                    Some(b1) => Some((self, b1)),
                }
            }
        } else {
            Some((self, b))
        }
    }

    pub open spec fn bios_call_ok(self, b: BusState, function: u32) -> bool {
        exists|f: nat| (#[trigger] self.bios_call(b, function, f)) is Some
    }

    pub open spec fn bios_call_result(self, b: BusState, function: u32) -> (CpuState, BusState) {
        self.bios_call(b, function, choose|f: nat| (#[trigger] self.bios_call(b, function, f)) is Some)->0
    }
}

impl Cpu {
    /// Takes an IRQ exception.
    pub(crate) fn enter_irq(&mut self)
        ensures
            final(self)@ == old(self)@.enter_irq(),
    {
        let old_cpsr = self.cpsr;
        let return_addr = self.registers[R_PC].wrapping_add(4);
        let new_mode: u32 = 0x12;
        self.switch_mode(old_cpsr & 0x1F, new_mode);
        self.spsr[BANK_IRQ] = old_cpsr;
        self.registers[R_LR] = return_addr;
        self.cpsr = (old_cpsr & !0xFFu32) | new_mode | 0x80;
        self.cpsr = self.cpsr & !CPSR_T;
        self.registers[R_PC] = 0x0000_0018;
    }

    fn bios_halt(bus: &mut Bus, Ghost(fuel): Ghost<nat>)
        requires
            old(bus)@.wf(),
            halt_loop(old(bus)@, 280_896, fuel) is Some,
        ensures
            final(bus)@.wf(),
            Some(final(bus)@) == halt_loop(old(bus)@, 280_896, fuel),
    {
        let ghost total = halt_loop(bus@, 280_896, fuel);
        let mut n: u32 = 280_896;
        let mut done = false;
        while n > 0 && !done
            invariant
                bus@.wf(),
                total is Some,
                !done ==> halt_loop(bus@, n as nat, fuel) == total,
                done ==> Some(bus@) == total,
            decreases n + if done {
                0int
            } else {
                1int
            },
        {
            bus.tick_fuel(1, Ghost(fuel));
            if bus.irq_pending() {
                done = true;
            } else {
                n = n - 1;
            }
        }
    }

    fn bios_intr_wait(bus: &mut Bus, Ghost(fuel): Ghost<nat>)
        requires
            old(bus)@.wf(),
            wait_loop(old(bus)@, 280_896, fuel) is Some,
        ensures
            final(bus)@.wf(),
            Some(final(bus)@) == wait_loop(old(bus)@, 280_896, fuel),
    {
        let ghost total = wait_loop(bus@, 280_896, fuel);
        let start_cycles = bus.cycles;
        let ghost mut n: nat = 280_896;
        loop
            invariant_except_break
                bus@.wf(),
                total is Some,
                n <= 280_896,
                wait_loop(bus@, n, fuel) == total,
                wsub(bus@.cycles, start_cycles) == 280_896 - n,
            ensures
                bus@.wf(),
                Some(bus@) == total,
            decreases n,
        {
            let ghost before = bus@;
            bus.tick_fuel(1, Ghost(fuel));
            proof {
                lemma_tick_advances_clock(before, 1, fuel);
            }
            if bus.irq_pending() {
                break ;
            }
            if bus.cycles.wrapping_sub(start_cycles) > CYCLES_PER_FRAME {
                break ;
            }
            proof {
                n = (n - 1) as nat;
            }
        }
    }

    fn bios_div(&mut self)
        requires
            !(sext32(old(self)@.registers[0]) == -0x8000_0000 && sext32(old(self)@.registers[1])
                == -1),
        ensures
            ({
                let num = sext32(old(self)@.registers[0]);
                let den = sext32(old(self)@.registers[1]);
                if den == 0 {
                    final(self)@ == old(self)@
                } else {
                    let q = div_trunc(num, den);
                    final(self)@ == old(self)@.set_reg(0, mod32(q)).set_reg(
                        1,
                        mod32(rem_trunc(num, den)),
                    ).set_reg(3, abs(q) as u32)
                }
            }),
    {
        let r0 = self.registers[0];
        let r1 = self.registers[1];
        if r1 == 0 {
            return ;
        }
        proof {
            lemma_not_u32(r0);
            lemma_not_u32(r1);
        }
        let neg_n = r0 >= 0x8000_0000;
        let neg_d = r1 >= 0x8000_0000;
        let mag_n: u32 = if neg_n {
            (!r0).wrapping_add(1)
        } else {
            r0
        };
        let mag_d: u32 = if neg_d {
            (!r1).wrapping_add(1)
        } else {
            r1
        };
        let q_mag = mag_n / mag_d;
        let r_mag = mag_n % mag_d;
        let q = if neg_n != neg_d {
            0u32.wrapping_sub(q_mag)
        } else {
            q_mag
        };
        let r = if neg_n {
            0u32.wrapping_sub(r_mag)
        } else {
            r_mag
        };
        proof {
            let num = sext32(r0);
            let den = sext32(r1);
            assert(mag_n as int == abs(num));
            assert(mag_d as int == abs(den));
            assert(q_mag as int == abs(num) / abs(den));
            assert(r_mag as int == abs(num) % abs(den));
            assert(q_mag as int <= 0x8000_0000) by (nonlinear_arith)
                requires
                    q_mag as int == (mag_n as int) / (mag_d as int),
                    mag_d >= 1,
                    mag_n <= 0x8000_0000,
            ;
            assert(abs(div_trunc(num, den)) == q_mag as int);
        }
        self.registers[0] = q;
        self.registers[1] = r;
        self.registers[3] = q_mag;
    }

    fn bios_cpuset(
        bus: &mut Bus,
        src: u32,
        dst: u32,
        is_fill: bool,
        fill_val: u32,
        is_32: bool,
        count: u32,
        Ghost(fuel): Ghost<nat>,
    )
        requires
            old(bus)@.wf(),
            count <= 0x000F_FFFF,
            cpuset_loop(old(bus)@, src, dst, is_fill, fill_val, is_32, 0, count as nat, fuel) is Some,
        ensures
            final(bus)@.wf(),
            Some(final(bus)@) == cpuset_loop(
                old(bus)@,
                src,
                dst,
                is_fill,
                fill_val,
                is_32,
                0,
                count as nat,
                fuel,
            ),
    {
        let ghost total = cpuset_loop(bus@, src, dst, is_fill, fill_val, is_32, 0, count as nat, fuel);
        let mut i: u32 = 0;
        while i < count
            invariant
                i <= count,
                count <= 0x000F_FFFF,
                bus@.wf(),
                total is Some,
                cpuset_loop(bus@, src, dst, is_fill, fill_val, is_32, i as nat, count as nat, fuel)
                    == total,
            decreases count - i,
        {
            if is_32 {
                let val = if is_fill {
                    fill_val
                } else {
                    bus.read_word(src.wrapping_add(i * 4))
                };
                bus.write_word_fuel(dst.wrapping_add(i * 4), val, Ghost(fuel));
            } else {
                let val = if is_fill {
                    fill_val as u16
                } else {
                    bus.read_halfword(src.wrapping_add(i * 2))
                };
                bus.write_halfword_fuel(dst.wrapping_add(i * 2), val, Ghost(fuel));
            }
            i = i + 1;
        }
    }

    fn lz_copy_exec(bus: &mut Bus, dst_pos: u32, offset: u32, k: u32, Ghost(fuel): Ghost<nat>) -> (end: u32)
        requires
            old(bus)@.wf(),
            lz_copy(old(bus)@, dst_pos, offset, k as nat, fuel) is Some,
        ensures
            final(bus)@.wf(),
            Some((final(bus)@, end)) == lz_copy(old(bus)@, dst_pos, offset, k as nat, fuel),
    {
        let ghost total = lz_copy(bus@, dst_pos, offset, k as nat, fuel);
        let mut dp = dst_pos;
        let mut j: u32 = k;
        while j > 0
            invariant
                bus@.wf(),
                total is Some,
                lz_copy(bus@, dp, offset, j as nat, fuel) == total,
            decreases j,
        {
            let b = bus.read_byte(dp - offset);
            bus.write_byte_fuel(dp, b, Ghost(fuel));
            dp = dp + 1;
            j = j - 1;
        }
        dp
    }

    fn bios_lz77(bus: &mut Bus, src: u32, dst: u32, Ghost(fuel): Ghost<nat>)
        requires
            old(bus)@.wf(),
            src <= 0xFFFF_FFFB,
            lz_run(
                old(bus)@,
                0,
                0,
                (src + 4) as u32,
                dst,
                (old(bus)@.read_word(src) >> 8u32) & 0x00FF_FFFF,
                fuel,
            ) is Some,
        ensures
            final(bus)@.wf(),
            Some(final(bus)@) == lz_run(
                old(bus)@,
                0,
                0,
                (src + 4) as u32,
                dst,
                (old(bus)@.read_word(src) >> 8u32) & 0x00FF_FFFF,
                fuel,
            ),
    {
        let header = bus.read_word(src);
        let decomp_size = (header >> 8u32) & 0x00FF_FFFF;
        let ghost total = lz_run(bus@, 0, 0, (src + 4) as u32, dst, decomp_size, fuel);
        let mut src_pos = src + 4;
        let mut dst_pos = dst;
        let mut remaining = decomp_size;
        while remaining > 0
            invariant
                bus@.wf(),
                total is Some,
                lz_run(bus@, 0, 0, src_pos, dst_pos, remaining, fuel) == total,
            decreases remaining,
        {
            let flags = bus.read_byte(src_pos);
            src_pos = src_pos + 1;
            let ghost rem0 = remaining;
            let mut bit: u8 = 8;
            while bit > 0 && remaining > 0
                invariant
                    bit <= 8,
                    bus@.wf(),
                    total is Some,
                    rem0 > 0,
                    remaining <= rem0,
                    bit == 8 ==> remaining == rem0,
                    bit < 8 ==> remaining < rem0,
                    bit == 8 ==> lz_bit(bus@, flags, 7, src_pos, dst_pos, remaining, fuel) == total,
                    bit < 8 ==> lz_run(bus@, flags, bit as nat, src_pos, dst_pos, remaining, fuel)
                        == total,
                decreases bit,
            {
                bit = bit - 1;
                let (sp, dp, rem) = Self::lz_token(
                    bus,
                    flags,
                    bit,
                    src_pos,
                    dst_pos,
                    remaining,
                    Ghost(fuel),
                );
                src_pos = sp;
                dst_pos = dp;
                remaining = rem;
            }
        }
    }

    /// One LZ77 token; returns the new source, destination and remaining count.
    fn lz_token(
        bus: &mut Bus,
        flags: u8,
        bit: u8,
        src_pos: u32,
        dst_pos: u32,
        remaining: u32,
        Ghost(fuel): Ghost<nat>,
    ) -> (r: (u32, u32, u32))
        requires
            old(bus)@.wf(),
            bit < 8,
            remaining > 0,
            lz_bit(old(bus)@, flags, bit as nat, src_pos, dst_pos, remaining, fuel) is Some,
        ensures
            final(bus)@.wf(),
            r.2 < remaining,
            lz_run(final(bus)@, flags, bit as nat, r.0, r.1, r.2, fuel) == lz_bit(
                old(bus)@,
                flags,
                bit as nat,
                src_pos,
                dst_pos,
                remaining,
                fuel,
            ),
    {
        if flags & (1u8 << bit) == 0 {
            let b = bus.read_byte(src_pos);
            bus.write_byte_fuel(dst_pos, b, Ghost(fuel));
            (src_pos + 1, dst_pos + 1, remaining - 1)
        } else {
            let b1 = bus.read_byte(src_pos) as u32;
            let b2 = bus.read_byte(src_pos + 1) as u32;
            let length = ((b1 >> 4u32) & 0xF) + 3;
            assert(((b1 & 0xF) << 8u32) | b2 <= 0xFFF) by (bit_vector)
                requires
                    b2 <= 0xFF,
            ;
            let offset = (((b1 & 0xF) << 8u32) | b2) + 1;
            let k = if length < remaining {
                length
            } else {
                remaining
            };
            let dp = Self::lz_copy_exec(bus, dst_pos, offset, k, Ghost(fuel));
            (src_pos + 2, dp, remaining - k)
        }
    }

    /// Runs BIOS service `function` with a DMA nesting budget.
    pub(crate) fn handle_bios_call(&mut self, function: u32, bus: &mut Bus, Ghost(fuel): Ghost<nat>)
        requires
            old(bus)@.wf(),
            old(self)@.bios_call(old(bus)@, function, fuel) is Some,
        ensures
            final(bus)@.wf(),
            Some((final(self)@, final(bus)@)) == old(self)@.bios_call(old(bus)@, function, fuel),
    {
        if function == 0x02 {
            Self::bios_halt(bus, Ghost(fuel));
        } else if function == 0x04 || function == 0x05 {
            Self::bios_intr_wait(bus, Ghost(fuel));
        } else if function == 0x06 {
            self.bios_div();
        } else if function == 0x08 {
            let x = self.registers[0];
            let r = isqrt(x);
            proof {
                assert(is_isqrt(x as int, r as int));
                let c = choose|r: int| is_isqrt(x as int, r);
                lemma_isqrt_unique(x as int, c, r as int);
            }
            self.registers[0] = r;
        } else if function == 0x0B || function == 0x0C {
            let src = self.registers[0];
            let dst = self.registers[1];
            let control = self.registers[2];
            let count = control & 0x000F_FFFF;
            let is_fill = (control >> 24u32) & 1 == 1;
            let is_32 = function == 0x0C || (control >> 26u32) & 1 == 1;
            let fill_val: u32 = if !is_fill {
                0
            } else if is_32 {
                bus.read_word(src)
            } else {
                bus.read_halfword(src) as u32
            };
            Self::bios_cpuset(bus, src, dst, is_fill, fill_val, is_32, count, Ghost(fuel));
        } else if function == 0x11 || function == 0x12 {
            let src = self.registers[0];
            let dst = self.registers[1];
            Self::bios_lz77(bus, src, dst, Ghost(fuel));
        }
    }

    /// SWI in ARM state: the service number is in bits 23-16.
    pub(crate) fn execute_swi(&mut self, instruction: u32, bus: &mut Bus, Ghost(fuel): Ghost<nat>)
        requires
            old(bus)@.wf(),
            old(self)@.bios_call(old(bus)@, (instruction >> 16u32) & 0xFF, fuel) is Some,
        ensures
            final(bus)@.wf(),
            Some((final(self)@, final(bus)@)) == old(self)@.bios_call(
                old(bus)@,
                (instruction >> 16u32) & 0xFF,
                fuel,
            ),
    {
        let comment = (instruction >> 16u32) & 0xFF;
        self.handle_bios_call(comment, bus, Ghost(fuel));
    }

    /// SWI in THUMB state: the service number is in bits 7-0.
    pub fn execute_swi_thumb(&mut self, instruction: u32, bus: &mut Bus)
        requires
            old(bus)@.wf(),
            old(self)@.bios_call_ok(old(bus)@, instruction & 0xFF),
        ensures
            final(bus)@.wf(),
            (final(self)@, final(bus)@) == old(self)@.bios_call_result(old(bus)@, instruction & 0xFF),
    {
        let ghost c = self@;
        let ghost b = bus@;
        let ghost fuel = choose|f: nat| (#[trigger] c.bios_call(b, instruction & 0xFF, f)) is Some;
        let comment = instruction & 0xFF;
        self.handle_bios_call(comment, bus, Ghost(fuel));
    }
}

/// The integer square root is unique.
pub proof fn lemma_isqrt_unique(x: int, a: int, b: int)
    requires
        is_isqrt(x, a),
        is_isqrt(x, b),
    ensures
        a == b,
{
    if a < b {
        assert((a + 1) * (a + 1) <= b * b) by (nonlinear_arith)
            requires
                0 <= a < b,
        ;
    } else if b < a {
        assert((b + 1) * (b + 1) <= a * a) by (nonlinear_arith)
            requires
                0 <= b < a,
        ;
    }
}

// ---------------------------------------------------------------------------
// Fetch, decode, execute
// ---------------------------------------------------------------------------

/// Appends a cycle count to the result of an instruction.
pub open spec fn with_cycles(r: Option<(CpuState, BusState)>, cycles: u32) -> Option<
    (CpuState, BusState, u32),
> {
    match r {
        None => None,
        Some(r) => Some((r.0, r.1, cycles)),
    }
}

impl CpuState {
    /// An ARM instruction whose condition passed, with its execution cycles
    /// (ALU 1, MUL 4, BX and branches 3, loads 3, stores 2, LDM/STM 2 + n).
    pub open spec fn arm_execute(self, b: BusState, instruction: u32, fuel: nat) -> Option<
        (CpuState, BusState, u32),
    > {
        let bits_27_26 = (instruction >> 26u32) & 0x3;
        let bit_25 = (instruction >> 25u32) & 1;
        let is_load = (instruction >> 20u32) & 1 == 1;
        let load_cycles: u32 = if is_load {
            3
        } else {
            2
        };
        if bits_27_26 == 0 {
            match self.special(instruction) {
                Some(c) => Some(
                    (
                        c,
                        b,
                        if instruction & 0x0FFF_FFF0 == 0x012F_FF10 {
                            3
                        } else if instruction & 0x0FC0_00F0 == 0x0000_0090 {
                            4
                        } else {
                            1
                        },
                    ),
                ),
                None => if bit_25 == 0 && instruction & 0x90 == 0x90 && (instruction >> 5u32) & 0x3
                    != 0 {
                    with_cycles(self.halfword_transfer(b, instruction, fuel), load_cycles)
                } else {
                    Some((self.data_processing(instruction, bit_25 == 1), b, 1))
                },
            }
        } else if bits_27_26 == 1 {
            with_cycles(self.single_transfer(b, instruction, fuel), load_cycles)
        } else if bits_27_26 == 2 {
            if bit_25 == 1 {
                Some((self.branch(instruction), b, 3))
            } else {
                with_cycles(
                    self.block_transfer(b, instruction, fuel),
                    (2 + popcount(instruction & 0xFFFF, 16)) as u32,
                )
            }
        } else if (instruction >> 24u32) & 0xF == 0xF {
            with_cycles(self.bios_call(b, (instruction >> 16u32) & 0xFF, fuel), 3)
        } else {
            Some((self, b, 1))
        }
    }

    /// A THUMB instruction, decoded by its top bits, with its execution
    /// cycles.
    pub open spec fn thumb_execute(self, b: BusState, instruction: u32, fuel: nat) -> Option<
        (CpuState, BusState, u32),
    > {
        let top8 = (instruction >> 8u32) & 0xFF;
        let top5 = (instruction >> 11u32) & 0x1F;
        let top3 = (instruction >> 13u32) & 0x7;
        let is_load = (instruction >> 11u32) & 1 == 1;
        let load_cycles: u32 = if is_load {
            3
        } else {
            2
        };
        if top3 == 0 {
            if top5 == 0x03 {
                Some((self.thumb_add_sub(instruction), b, 1))
            } else {
                Some((self.thumb_shift(instruction), b, 1))
            }
        } else if top3 == 1 {
            Some((self.thumb_immediate(instruction), b, 1))
        } else if top3 == 2 {
            if top5 == 0x08 {
                if (instruction >> 10u32) & 1 == 1 {
                    Some(
                        (
                            self.thumb_hi_reg(instruction),
                            b,
                            if (instruction >> 8u32) & 0x3 == 3 {
                                3
                            } else {
                                1
                            },
                        ),
                    )
                } else {
                    Some((self.thumb_alu(instruction), b, 1))
                }
            } else if top5 == 0x09 {
                match self.thumb_pc_relative_load(b, instruction) {
                    None => None,
                    Some(c) => Some((c, b, 3)),
                }
            } else {
                with_cycles(self.thumb_load_store_reg(b, instruction, fuel), 3)
            }
        } else if top3 == 3 {
            with_cycles(self.thumb_load_store_imm(b, instruction, fuel), load_cycles)
        } else if top3 == 4 {
            if top5 & 0x1E == 0x10 {
                with_cycles(self.thumb_load_store_halfword(b, instruction, fuel), load_cycles)
            } else {
                with_cycles(self.thumb_sp_relative(b, instruction, fuel), load_cycles)
            }
        } else if top3 == 5 {
            if top5 & 0x1E == 0x14 {
                Some((self.thumb_load_address(instruction), b, 1))
            } else if top8 == 0xB0 {
                Some((self.thumb_sp_offset(instruction), b, 1))
            } else if top5 & 0x1E == 0x16 {
                with_cycles(
                    self.thumb_push_pop(b, instruction, fuel),
                    (2 + popcount(instruction & 0xFF, 8) + ((instruction >> 8u32) & 1)) as u32,
                )
            } else {
                Some((self, b, 1))
            }
        } else if top3 == 6 {
            if top5 & 0x1E == 0x18 {
                with_cycles(
                    self.thumb_multiple_load_store(b, instruction, fuel),
                    (2 + popcount(instruction & 0xFF, 8)) as u32,
                )
            } else if top8 == 0xDF {
                with_cycles(self.bios_call(b, instruction & 0xFF, fuel), 3)
            } else if top5 == 0x1B || top5 == 0x1A {
                Some((self.thumb_conditional_branch(instruction), b, 3))
            } else {
                Some((self, b, 1))
            }
        } else {
            if top5 == 0x1C {
                Some((self.thumb_branch(instruction), b, 3))
            } else if top5 & 0x1E == 0x1E {
                Some((self.thumb_long_branch(instruction), b, 1))
            } else {
                Some((self, b, 1))
            }
        }
    }

    /// One THUMB step: fetch the halfword at the PC, advance the PC by 2 and
    /// execute; a zero halfword halts (0 cycles). Cycles include the fetch
    /// waitstates.
    pub open spec fn step_thumb(self, b: BusState, fuel: nat) -> Option<(CpuState, BusState, u32)> {
        let pc = self.registers[15];
        if pc > 0xFFFF_FFFE {
            None
        } else {
            let wait = self.fetch_waitstates(pc);
            let instruction = b.read_halfword(pc) as u32;
            let c = self.set_reg(15, wadd(pc, 2));
            if instruction == 0 {
                Some((c, b, 0))
            } else {
                match c.thumb_execute(b, instruction, fuel) {
                    None => None,
                    Some(r) => Some((r.0, r.1, (r.2 + wait) as u32)),
                }
            }
        }
    }

    /// One processor step: take a pending IRQ when IRQs are enabled (CPSR I
    /// clear), then in THUMB state run a THUMB step; in ARM state fetch the
    /// word at the PC, advance the PC by 4, halt on a zero word (0 cycles),
    /// skip an instruction whose condition fails (1 cycle), or execute it.
    /// Cycles include the fetch waitstates.
    pub open spec fn step(self, b: BusState, fuel: nat) -> Option<(CpuState, BusState, u32)> {
        let c0 = if self.cpsr & 0x80 == 0 && b.irq_pending() {
            self.enter_irq()
        } else {
            self
        };
        if c0.thumb() {
            c0.step_thumb(b, fuel)
        } else {
            let pc = c0.registers[15];
            if pc > 0xFFFF_FFFC {
                None
            } else {
                let wait = c0.fetch_waitstates(pc);
                let instruction = b.read_word(pc);
                let c1 = c0.set_reg(15, wadd(pc, 4));
                if instruction == 0 {
                    Some((c1, b, 0))
                } else if !c1.condition_met((instruction >> 28u32) & 0xF) {
                    Some((c1, b, (1 + wait) as u32))
                } else {
                    match c1.arm_execute(b, instruction, fuel) {
                        None => None,
                        Some(r) => Some((r.0, r.1, (r.2 + wait) as u32)),
                    }
                }
            }
        }
    }

    /// Whether a step is defined: no address computation overflows, no
    /// division overflows, and every DMA chain it starts ends.
    pub open spec fn step_ok(self, b: BusState) -> bool {
        exists|f: nat| (#[trigger] self.step(b, f)) is Some
    }

    pub open spec fn step_result(self, b: BusState) -> (CpuState, BusState, u32) {
        self.step(b, choose|f: nat| (#[trigger] self.step(b, f)) is Some)->0
    }
}

impl Cpu {
    fn arm_execute(&mut self, instruction: u32, bus: &mut Bus, Ghost(fuel): Ghost<nat>) -> (cycles: u32)
        requires
            old(bus)@.wf(),
            old(self)@.arm_execute(old(bus)@, instruction, fuel) is Some,
        ensures
            final(bus)@.wf(),
            Some((final(self)@, final(bus)@, cycles)) == old(self)@.arm_execute(
                old(bus)@,
                instruction,
                fuel,
            ),
            cycles <= 18,
    {
        let bits_27_26 = (instruction >> 26u32) & 0x3;
        let bit_25 = (instruction >> 25u32) & 1;
        if bits_27_26 == 0 {
            if self.try_special_arm(instruction) {
                let is_bx = (instruction & 0x0FFF_FFF0) == 0x012F_FF10;
                let is_mul = (instruction & 0x0FC0_00F0) == 0x0000_0090;
                return if is_bx {
                    3
                } else if is_mul {
                    4
                } else {
                    1
                };
            }
            if bit_25 == 0 && (instruction & 0x90) == 0x90 && (instruction >> 5u32) & 0x3 != 0 {
                self.execute_halfword_transfer(instruction, bus, Ghost(fuel));
                let is_load = (instruction >> 20u32) & 1 == 1;
                return if is_load {
                    3
                } else {
                    2
                };
            }
            self.execute_data_processing(instruction, bit_25);
            1
        } else if bits_27_26 == 1 {
            self.execute_single_transfer(instruction, bus, Ghost(fuel));
            let is_load = (instruction >> 20u32) & 1 == 1;
            if is_load {
                3
            } else {
                2
            }
        } else if bits_27_26 == 2 {
            if bit_25 == 1 {
                self.execute_branch(instruction);
                3
            } else {
                self.execute_block_transfer(instruction, bus, Ghost(fuel));
                2 + count_bits(instruction & 0xFFFF, 16)
            }
        } else if (instruction >> 24u32) & 0xF == 0xF {
            self.execute_swi(instruction, bus, Ghost(fuel));
            3
        } else {
            1
        }
    }

    fn thumb_execute(&mut self, instruction: u32, bus: &mut Bus, Ghost(fuel): Ghost<nat>) -> (cycles: u32)
        requires
            old(bus)@.wf(),
            old(self)@.thumb_execute(old(bus)@, instruction, fuel) is Some,
        ensures
            final(bus)@.wf(),
            Some((final(self)@, final(bus)@, cycles)) == old(self)@.thumb_execute(
                old(bus)@,
                instruction,
                fuel,
            ),
            cycles <= 11,
    {
        let top8 = (instruction >> 8u32) & 0xFF;
        let top5 = (instruction >> 11u32) & 0x1F;
        let top3 = (instruction >> 13u32) & 0x7;
        let is_load = (instruction >> 11u32) & 1 == 1;
        let load_cycles: u32 = if is_load {
            3
        } else {
            2
        };
        if top3 == 0 {
            if top5 == 0x03 {
                self.thumb_add_sub(instruction);
            } else {
                self.thumb_shift(instruction);
            }
            1
        } else if top3 == 1 {
            self.thumb_immediate(instruction);
            1
        } else if top3 == 2 {
            if top5 == 0x08 {
                if (instruction >> 10u32) & 1 == 1 {
                    self.thumb_hi_reg_bx(instruction);
                    if (instruction >> 8u32) & 0x3 == 3 {
                        3
                    } else {
                        1
                    }
                } else {
                    self.thumb_alu(instruction);
                    1
                }
            } else if top5 == 0x09 {
                self.thumb_pc_relative_load(instruction, bus);
                3
            } else {
                self.thumb_load_store_reg(instruction, bus, Ghost(fuel));
                3
            }
        } else if top3 == 3 {
            self.thumb_load_store_imm(instruction, bus, Ghost(fuel));
            load_cycles
        } else if top3 == 4 {
            if top5 & 0x1E == 0x10 {
                self.thumb_load_store_halfword(instruction, bus, Ghost(fuel));
            } else {
                self.thumb_sp_relative(instruction, bus, Ghost(fuel));
            }
            load_cycles
        } else if top3 == 5 {
            if top5 & 0x1E == 0x14 {
                self.thumb_load_address(instruction);
                1
            } else if top8 == 0xB0 {
                self.thumb_sp_offset(instruction);
                1
            } else if top5 & 0x1E == 0x16 {
                self.thumb_push_pop(instruction, bus, Ghost(fuel));
                2 + count_bits(instruction & 0xFF, 8) + ((instruction >> 8u32) & 1)
            } else {
                1
            }
        } else if top3 == 6 {
            if top5 & 0x1E == 0x18 {
                self.thumb_multiple_load_store(instruction, bus, Ghost(fuel));
                2 + count_bits(instruction & 0xFF, 8)
            } else if top8 == 0xDF {
                self.execute_swi_thumb_fuel(instruction, bus, Ghost(fuel));
                3
            } else if top5 == 0x1B || top5 == 0x1A {
                self.thumb_conditional_branch(instruction);
                3
            } else {
                1
            }
        } else {
            if top5 == 0x1C {
                self.thumb_branch(instruction);
                3
            } else if top5 & 0x1E == 0x1E {
                self.thumb_long_branch(instruction);
                1
            } else {
                1
            }
        }
    }

    fn execute_swi_thumb_fuel(&mut self, instruction: u32, bus: &mut Bus, Ghost(fuel): Ghost<nat>)
        requires
            old(bus)@.wf(),
            old(self)@.bios_call(old(bus)@, instruction & 0xFF, fuel) is Some,
        ensures
            final(bus)@.wf(),
            Some((final(self)@, final(bus)@)) == old(self)@.bios_call(
                old(bus)@,
                instruction & 0xFF,
                fuel,
            ),
    {
        let comment = instruction & 0xFF;
        self.handle_bios_call(comment, bus, Ghost(fuel));
    }

    fn step_thumb(&mut self, bus: &mut Bus, Ghost(fuel): Ghost<nat>) -> (cycles: u32)
        requires
            old(bus)@.wf(),
            old(self)@.step_thumb(old(bus)@, fuel) is Some,
        ensures
            final(bus)@.wf(),
            Some((final(self)@, final(bus)@, cycles)) == old(self)@.step_thumb(old(bus)@, fuel),
    {
        let pc = self.registers[R_PC];
        let wait = self.fetch_waitstates(pc);
        let instruction = bus.read_halfword(pc) as u32;
        self.registers[R_PC] = pc.wrapping_add(2);
        if instruction == 0 {
            return 0;
        }
        let exec_cycles = self.thumb_execute(instruction, bus, Ghost(fuel));
        exec_cycles + wait
    }

    fn step_fuel(&mut self, bus: &mut Bus, Ghost(fuel): Ghost<nat>) -> (cycles: u32)
        requires
            old(bus)@.wf(),
            old(self)@.step(old(bus)@, fuel) is Some,
        ensures
            final(bus)@.wf(),
            Some((final(self)@, final(bus)@, cycles)) == old(self)@.step(old(bus)@, fuel),
    {
        if self.cpsr & 0x80 == 0 && bus.irq_pending() {
            self.enter_irq();
        }
        if self.in_thumb_mode() {
            return self.step_thumb(bus, Ghost(fuel));
        }
        let pc = self.registers[R_PC];
        let wait = self.fetch_waitstates(pc);
        let instruction = bus.read_word(pc);
        self.registers[R_PC] = pc.wrapping_add(4);
        if instruction == 0 {
            return 0;
        }
        let cond = (instruction >> 28u32) & 0xF;
        if !self.condition_met(cond) {
            return 1 + wait;
        }
        let exec_cycles = self.arm_execute(instruction, bus, Ghost(fuel));
        exec_cycles + wait
    }

    /// Executes one instruction (taking a pending IRQ first) and returns the
    /// cycles it took, fetch waitstates included; 0 signals a halt (a zero
    /// instruction).
    pub fn step(&mut self, bus: &mut Bus) -> (cycles: u32)
        requires
            old(bus)@.wf(),
            old(self)@.step_ok(old(bus)@),
        ensures
            final(bus)@.wf(),
            (final(self)@, final(bus)@, cycles) == old(self)@.step_result(old(bus)@),
    {
        let ghost c = self@;
        let ghost b = bus@;
        let ghost fuel = choose|f: nat| (#[trigger] c.step(b, f)) is Some;
        self.step_fuel(bus, Ghost(fuel))
    }
}

} // verus!
