//! Laws of the processor state: condition codes, status flags and register
//! banking.
use vstd::prelude::*;
use super::{CpuState, bank_of, BANK_FIQ, CPSR_N, CPSR_Z, CPSR_C, CPSR_V};
use super::arm::{wadd, popcount};
use crate::bus::BusState;

verus! {

/// Condition codes come in complementary pairs (EQ/NE, CS/CC, MI/PL, VS/VC,
/// HI/LS, GE/LT, GT/LE): the odd code of a pair holds exactly when the even
/// one does not; AL (14) and 15 always hold.
pub proof fn lemma_condition_pairs(s: CpuState, cond: u32)
    ensures
        cond < 14 && cond % 2 == 0 ==> s.condition_met((cond + 1) as u32) == !s.condition_met(cond),
        cond >= 14 ==> s.condition_met(cond),
{
}

/// Setting or clearing a flag changes exactly the bits of its mask, and the
/// flag then reads back as written.
pub proof fn lemma_set_flag(s: CpuState, mask: u32, value: bool)
    requires
        mask == CPSR_N || mask == CPSR_Z || mask == CPSR_C || mask == CPSR_V,
    ensures
        s.set_flag(mask, value).cpsr & !mask == s.cpsr & !mask,
        (s.set_flag(mask, value).cpsr & mask != 0) == value,
        mask == CPSR_N ==> s.set_flag(mask, value).flag_n() == value,
        mask == CPSR_Z ==> s.set_flag(mask, value).flag_z() == value,
        mask == CPSR_C ==> s.set_flag(mask, value).flag_c() == value,
        mask == CPSR_V ==> s.set_flag(mask, value).flag_v() == value,
        s.set_flag(mask, value).registers == s.registers,
{
    let c = s.cpsr;
    assert(mask == 0x8000_0000 || mask == 0x4000_0000 || mask == 0x2000_0000 || mask
        == 0x1000_0000 ==> (c | mask) & !mask == c & !mask && (c & !mask) & !mask == c & !mask && (c
        | mask) & mask != 0 && (c & !mask) & mask == 0) by (bit_vector);
}

/// Switching mode and switching back restores every register, and a switch
/// keeps R0-R7 and the PC.
pub proof fn lemma_switch_mode_round_trip(s: CpuState, a: u32, b: u32)
    requires
        s.wf(),
    ensures
        s.switch_mode(a, b).switch_mode(b, a).registers == s.registers,
        s.switch_mode(a, b).registers.len() == 16,
        forall|r: int|
            0 <= r < 8 || r == 15 ==> #[trigger] s.switch_mode(a, b).registers[r] == s.registers[r],
{
    let t = s.switch_mode(a, b);
    let u = t.switch_mode(b, a);
    let ob = bank_of(a) as int;
    let nb = bank_of(b) as int;
    if ob != nb {
        assert(t.registers.len() == 16);
        if ob == BANK_FIQ {
            assert(t.banked_fiq =~= s.registers.subrange(8, 13));
        } else if nb == BANK_FIQ {
            assert(t.banked_usr =~= s.registers.subrange(8, 13));
        }
        assert(u.registers =~= s.registers);
    }
}

/// A CPSR write that leaves the mode bits alone keeps every register.
pub proof fn lemma_write_cpsr_same_mode(s: CpuState, value: u32, mask: u32)
    requires
        mask & 0x1F == 0,
    ensures
        s.write_cpsr(value, mask).registers == s.registers,
        s.write_cpsr(value, mask).cpsr == (s.cpsr & !mask) | (value & mask),
{
    let c = s.cpsr;
    assert(mask & 0x1F == 0 ==> ((c & !mask) | (value & mask)) & 0x1F == c & 0x1F) by (bit_vector);
}

proof fn lemma_popcount_le(x: u32, n: nat)
    ensures
        popcount(x, n) <= n,
    decreases n,
{
    if n > 0 {
        lemma_popcount_le(x, (n - 1) as nat);
    }
}

proof fn lemma_arm_cycles(c: CpuState, b: BusState, instruction: u32, f: nat)
    requires
        c.arm_execute(b, instruction, f) is Some,
    ensures
        1 <= (c.arm_execute(b, instruction, f)->0).2 <= 18,
{
    lemma_popcount_le(instruction & 0xFFFF, 16);
}

proof fn lemma_thumb_cycles(c: CpuState, b: BusState, instruction: u32, f: nat)
    requires
        c.thumb_execute(b, instruction, f) is Some,
    ensures
        1 <= (c.thumb_execute(b, instruction, f)->0).2 <= 18,
{
    broadcast use crate::bits::group_and_bounds;

    lemma_popcount_le(instruction & 0xFF, 8);
    assert((instruction >> 8u32) & 1 <= 1);
}

/// The instruction a step fetches at the PC: a halfword in THUMB state, a
/// word in ARM state.
pub open spec fn fetched(c: CpuState, b: BusState) -> u32 {
    if c.thumb() {
        b.read_halfword(c.registers[15]) as u32
    } else {
        b.read_word(c.registers[15])
    }
}

/// A step that takes no interrupt halts (takes 0 cycles) exactly when it
/// fetches a zero instruction; it then only advances the PC past that
/// instruction. Every other step takes at least one cycle.
pub proof fn lemma_step_halts_on_zero(c: CpuState, b: BusState)
    requires
        c.wf(),
        c.step_ok(b),
        !(c.cpsr & 0x80 == 0 && b.irq_pending()),
    ensures
        (c.step_result(b).2 == 0) <==> (fetched(c, b) == 0),
        fetched(c, b) == 0 ==> c.step_result(b) == (
            c.set_reg(
                15,
                wadd(
                    c.registers[15],
                    if c.thumb() {
                        2
                    } else {
                        4
                    },
                ),
            ),
            b,
            0u32,
        ),
{
    let f = choose|f: nat| (#[trigger] c.step(b, f)) is Some;
    let pc = c.registers[15];
    let wait = c.fetch_waitstates(pc);
    assert(wait <= 4);
    if c.thumb() {
        let instruction = b.read_halfword(pc) as u32;
        let c1 = c.set_reg(15, wadd(pc, 2));
        if instruction != 0 {
            lemma_thumb_cycles(c1, b, instruction, f);
        }
    } else {
        let instruction = b.read_word(pc);
        let c1 = c.set_reg(15, wadd(pc, 4));
        if instruction != 0 && c1.condition_met((instruction >> 28u32) & 0xF) {
            lemma_arm_cycles(c1, b, instruction, f);
        }
    }
}

} // verus!
