//! DMA nesting budgets of the processor: an instruction or BIOS service that
//! is defined with one budget gives the same result with any larger one, so
//! every budget with which a step is defined gives the step's result.
use vstd::prelude::*;
use super::CpuState;
use super::system::{halt_loop, wait_loop, cpuset_loop, lz_copy, lz_run, lz_bit};
use crate::bus::BusState;
use crate::bus_laws::{
    lemma_write_byte_budget, lemma_write_halfword_budget, lemma_write_word_budget,
    lemma_tick_budget,
};

verus! {

/// Bus writes and ticks defined with budget `f` keep their result with `g`.
proof fn lemma_bus_budget(f: nat, g: nat)
    requires
        f <= g,
    ensures
        forall|s: BusState, a: u32, v: u8| #[trigger]
            s.write_byte_f(a, v, f) is Some ==> s.write_byte_f(a, v, g) == s.write_byte_f(a, v, f),
        forall|s: BusState, a: u32, v: u16| #[trigger]
            s.write_halfword_f(a, v, f) is Some ==> s.write_halfword_f(a, v, g)
                == s.write_halfword_f(a, v, f),
        forall|s: BusState, a: u32, v: u32| #[trigger]
            s.write_word_f(a, v, f) is Some ==> s.write_word_f(a, v, g) == s.write_word_f(a, v, f),
        forall|s: BusState, c: u32| #[trigger]
            s.tick_f(c, f) is Some ==> s.tick_f(c, g) == s.tick_f(c, f),
{
    assert forall|s: BusState, a: u32, v: u8| #[trigger]
        s.write_byte_f(a, v, f) is Some implies s.write_byte_f(a, v, g) == s.write_byte_f(
        a,
        v,
        f,
    ) by {
        lemma_write_byte_budget(s, a, v, f, g);
    }
    assert forall|s: BusState, a: u32, v: u16| #[trigger]
        s.write_halfword_f(a, v, f) is Some implies s.write_halfword_f(a, v, g)
        == s.write_halfword_f(a, v, f) by {
        lemma_write_halfword_budget(s, a, v, f, g);
    }
    assert forall|s: BusState, a: u32, v: u32| #[trigger]
        s.write_word_f(a, v, f) is Some implies s.write_word_f(a, v, g) == s.write_word_f(
        a,
        v,
        f,
    ) by {
        lemma_write_word_budget(s, a, v, f, g);
    }
    assert forall|s: BusState, c: u32| #[trigger]
        s.tick_f(c, f) is Some implies s.tick_f(c, g) == s.tick_f(c, f) by {
        lemma_tick_budget(s, c, f, g);
    }
}

proof fn lemma_halt_loop_budget(b: BusState, n: nat, f: nat, g: nat)
    requires
        halt_loop(b, n, f) is Some,
        f <= g,
    ensures
        halt_loop(b, n, g) == halt_loop(b, n, f),
    decreases n,
{
    if n > 0 {
        lemma_tick_budget(b, 1, f, g);
        let b1 = b.tick_f(1, f)->0;
        if !b1.irq_pending() {
            lemma_halt_loop_budget(b1, (n - 1) as nat, f, g);
        }
    }
}

proof fn lemma_wait_loop_budget(b: BusState, n: nat, f: nat, g: nat)
    requires
        wait_loop(b, n, f) is Some,
        f <= g,
    ensures
        wait_loop(b, n, g) == wait_loop(b, n, f),
    decreases n,
{
    lemma_tick_budget(b, 1, f, g);
    let b1 = b.tick_f(1, f)->0;
    if !(b1.irq_pending() || n == 0) {
        lemma_wait_loop_budget(b1, (n - 1) as nat, f, g);
    }
}

proof fn lemma_cpuset_loop_budget(
    b: BusState,
    src: u32,
    dst: u32,
    is_fill: bool,
    fill_val: u32,
    is_32: bool,
    i: nat,
    count: nat,
    f: nat,
    g: nat,
)
    requires
        cpuset_loop(b, src, dst, is_fill, fill_val, is_32, i, count, f) is Some,
        f <= g,
    ensures
        cpuset_loop(b, src, dst, is_fill, fill_val, is_32, i, count, g) == cpuset_loop(
            b,
            src,
            dst,
            is_fill,
            fill_val,
            is_32,
            i,
            count,
            f,
        ),
    decreases count - i,
{
    lemma_bus_budget(f, g);
    if i < count {
        let step: int = if is_32 {
            4
        } else {
            2
        };
        let s = crate::cpu::arm::wadd(src, (i * step) as u32);
        let d = crate::cpu::arm::wadd(dst, (i * step) as u32);
        let r = if is_32 {
            let v = if is_fill {
                fill_val
            } else {
                b.read_word(s)
            };
            b.write_word_f(d, v, f)
        } else {
            let v = if is_fill {
                fill_val as u16
            } else {
                b.read_halfword(s)
            };
            b.write_halfword_f(d, v, f)
        };
        if r is Some {
            lemma_cpuset_loop_budget(
                r->0,
                src,
                dst,
                is_fill,
                fill_val,
                is_32,
                i + 1,
                count,
                f,
                g,
            );
        }
    }
}

proof fn lemma_lz_copy_budget(b: BusState, dp: u32, offset: u32, k: nat, f: nat, g: nat)
    requires
        lz_copy(b, dp, offset, k, f) is Some,
        f <= g,
    ensures
        lz_copy(b, dp, offset, k, g) == lz_copy(b, dp, offset, k, f),
    decreases k,
{
    if k > 0 {
        let v = b.read_byte((dp - offset) as u32);
        lemma_write_byte_budget(b, dp, v, f, g);
        lemma_lz_copy_budget(b.write_byte_f(dp, v, f)->0, (dp + 1) as u32, offset, (k - 1) as nat, f, g);
    }
}

proof fn lemma_lz_run_budget(
    b: BusState,
    flags: u8,
    bits: nat,
    sp: u32,
    dp: u32,
    rem: u32,
    f: nat,
    g: nat,
)
    requires
        lz_run(b, flags, bits, sp, dp, rem, f) is Some,
        f <= g,
    ensures
        lz_run(b, flags, bits, sp, dp, rem, g) == lz_run(b, flags, bits, sp, dp, rem, f),
    decreases 9 * rem + bits,
{
    if rem != 0 {
        if bits == 0 {
            lemma_lz_bit_budget(b, b.read_byte(sp), 7, (sp + 1) as u32, dp, rem, f, g);
        } else {
            lemma_lz_bit_budget(b, flags, (bits - 1) as nat, sp, dp, rem, f, g);
        }
    }
}

proof fn lemma_lz_bit_budget(
    b: BusState,
    flags: u8,
    bit: nat,
    sp: u32,
    dp: u32,
    rem: u32,
    f: nat,
    g: nat,
)
    requires
        lz_bit(b, flags, bit, sp, dp, rem, f) is Some,
        f <= g,
    ensures
        lz_bit(b, flags, bit, sp, dp, rem, g) == lz_bit(b, flags, bit, sp, dp, rem, f),
    decreases 9 * rem + bit - 8,
{
    if flags & (1u8 << (bit as u8)) == 0 {
        let v = b.read_byte(sp);
        lemma_write_byte_budget(b, dp, v, f, g);
        lemma_lz_run_budget(
            b.write_byte_f(dp, v, f)->0,
            flags,
            bit,
            (sp + 1) as u32,
            (dp + 1) as u32,
            (rem - 1) as u32,
            f,
            g,
        );
    } else {
        let b1v = b.read_byte(sp) as u32;
        let b2v = b.read_byte((sp + 1) as u32) as u32;
        let length = ((b1v >> 4u32) & 0xF) + 3;
        let offset = (((b1v & 0xF) << 8u32) | b2v) + 1;
        let k = if length < rem {
            length
        } else {
            rem as int
        };
        lemma_lz_copy_budget(b, dp, offset as u32, k as nat, f, g);
        let r = lz_copy(b, dp, offset as u32, k as nat, f)->0;
        lemma_lz_run_budget(r.0, flags, bit, (sp + 2) as u32, r.1, (rem - k) as u32, f, g);
    }
}

/// A BIOS service defined with one DMA nesting budget gives the same result
/// with any larger budget.
pub proof fn lemma_bios_call_budget(c: CpuState, b: BusState, function: u32, f: nat, g: nat)
    requires
        c.bios_call(b, function, f) is Some,
        f <= g,
    ensures
        c.bios_call(b, function, g) == c.bios_call(b, function, f),
{
    if function == 0x02 {
        lemma_halt_loop_budget(b, 280_896, f, g);
    } else if function == 0x04 || function == 0x05 {
        lemma_wait_loop_budget(b, 280_896, f, g);
    } else if function == 0x0B || function == 0x0C {
        let src = c.registers[0];
        let dst = c.registers[1];
        let control = c.registers[2];
        let count = control & 0x000F_FFFF;
        let is_fill = (control >> 24u32) & 1 == 1;
        let is_32 = function == 0x0C || (control >> 26u32) & 1 == 1;
        let fill_val: u32 = if !is_fill {
            0
        } else if is_32 {
            b.read_word(src)
        } else {
            b.read_halfword(src) as u32
        };
        lemma_cpuset_loop_budget(b, src, dst, is_fill, fill_val, is_32, 0, count as nat, f, g);
    } else if function == 0x11 || function == 0x12 {
        let src = c.registers[0];
        let size = (b.read_word(src) >> 8u32) & 0x00FF_FFFF;
        lemma_lz_run_budget(b, 0, 0, (src + 4) as u32, c.registers[1], size, f, g);
    }
}

/// Every budget with which a BIOS service is defined gives its result.
pub proof fn lemma_bios_call_any_budget(c: CpuState, b: BusState, function: u32, f: nat)
    requires
        c.bios_call(b, function, f) is Some,
    ensures
        c.bios_call_ok(b, function),
        c.bios_call_result(b, function) == c.bios_call(b, function, f)->0,
{
    let f0 = choose|f: nat| (#[trigger] c.bios_call(b, function, f)) is Some;
    if f0 <= f {
        lemma_bios_call_budget(c, b, function, f0, f);
    } else {
        lemma_bios_call_budget(c, b, function, f, f0);
    }
}

proof fn lemma_block_loop_budget(
    c: CpuState,
    b: BusState,
    list: u32,
    is_load: bool,
    i: nat,
    addr: u32,
    f: nat,
    g: nat,
)
    requires
        c.block_loop(b, list, is_load, i, addr, f) is Some,
        f <= g,
    ensures
        c.block_loop(b, list, is_load, i, addr, g) == c.block_loop(b, list, is_load, i, addr, f),
    decreases 16 - i,
{
    if i < 16 {
        if list & (1u32 << (i as u32)) != 0 {
            if is_load {
                lemma_block_loop_budget(
                    c.set_reg(i as int, b.read_word(addr)),
                    b,
                    list,
                    is_load,
                    i + 1,
                    crate::cpu::arm::wadd(addr, 4),
                    f,
                    g,
                );
            } else {
                lemma_write_word_budget(b, addr, c.registers[i as int], f, g);
                lemma_block_loop_budget(
                    c,
                    b.write_word_f(addr, c.registers[i as int], f)->0,
                    list,
                    is_load,
                    i + 1,
                    crate::cpu::arm::wadd(addr, 4),
                    f,
                    g,
                );
            }
        } else {
            lemma_block_loop_budget(c, b, list, is_load, i + 1, addr, f, g);
        }
    }
}

proof fn lemma_thumb_block_budget(
    c: CpuState,
    b: BusState,
    list: u32,
    is_load: bool,
    i: nat,
    addr: u32,
    f: nat,
    g: nat,
)
    requires
        c.thumb_block(b, list, is_load, i, addr, f) is Some,
        f <= g,
    ensures
        c.thumb_block(b, list, is_load, i, addr, g) == c.thumb_block(b, list, is_load, i, addr, f),
    decreases 8 - i,
{
    if i < 8 {
        if list & (1u32 << (i as u32)) != 0 {
            if is_load {
                lemma_thumb_block_budget(
                    c.set_reg(i as int, b.read_word(addr)),
                    b,
                    list,
                    is_load,
                    i + 1,
                    crate::cpu::arm::wadd(addr, 4),
                    f,
                    g,
                );
            } else {
                lemma_write_word_budget(b, addr, c.registers[i as int], f, g);
                lemma_thumb_block_budget(
                    c,
                    b.write_word_f(addr, c.registers[i as int], f)->0,
                    list,
                    is_load,
                    i + 1,
                    crate::cpu::arm::wadd(addr, 4),
                    f,
                    g,
                );
            }
        } else {
            lemma_thumb_block_budget(c, b, list, is_load, i + 1, addr, f, g);
        }
    }
}

/// Block transfers and BIOS services defined with budget `f` keep their
/// result with `g`.
proof fn lemma_loops_budget(f: nat, g: nat)
    requires
        f <= g,
    ensures
        forall|c: CpuState, b: BusState, list: u32, is_load: bool, i: nat, addr: u32| #[trigger]
            c.block_loop(b, list, is_load, i, addr, f) is Some ==> c.block_loop(
                b,
                list,
                is_load,
                i,
                addr,
                g,
            ) == c.block_loop(b, list, is_load, i, addr, f),
        forall|c: CpuState, b: BusState, list: u32, is_load: bool, i: nat, addr: u32| #[trigger]
            c.thumb_block(b, list, is_load, i, addr, f) is Some ==> c.thumb_block(
                b,
                list,
                is_load,
                i,
                addr,
                g,
            ) == c.thumb_block(b, list, is_load, i, addr, f),
        forall|c: CpuState, b: BusState, function: u32| #[trigger]
            c.bios_call(b, function, f) is Some ==> c.bios_call(b, function, g) == c.bios_call(
                b,
                function,
                f,
            ),
{
    assert forall|c: CpuState, b: BusState, list: u32, is_load: bool, i: nat, addr: u32| #[trigger]
        c.block_loop(b, list, is_load, i, addr, f) is Some implies c.block_loop(
        b,
        list,
        is_load,
        i,
        addr,
        g,
    ) == c.block_loop(b, list, is_load, i, addr, f) by {
        lemma_block_loop_budget(c, b, list, is_load, i, addr, f, g);
    }
    assert forall|c: CpuState, b: BusState, list: u32, is_load: bool, i: nat, addr: u32| #[trigger]
        c.thumb_block(b, list, is_load, i, addr, f) is Some implies c.thumb_block(
        b,
        list,
        is_load,
        i,
        addr,
        g,
    ) == c.thumb_block(b, list, is_load, i, addr, f) by {
        lemma_thumb_block_budget(c, b, list, is_load, i, addr, f, g);
    }
    assert forall|c: CpuState, b: BusState, function: u32| #[trigger]
        c.bios_call(b, function, f) is Some implies c.bios_call(b, function, g) == c.bios_call(
        b,
        function,
        f,
    ) by {
        lemma_bios_call_budget(c, b, function, f, g);
    }
}

proof fn lemma_arm_execute_budget(c: CpuState, b: BusState, instruction: u32, f: nat, g: nat)
    requires
        c.arm_execute(b, instruction, f) is Some,
        f <= g,
    ensures
        c.arm_execute(b, instruction, g) == c.arm_execute(b, instruction, f),
{
    lemma_bus_budget(f, g);
    lemma_loops_budget(f, g);
}

proof fn lemma_thumb_execute_budget(c: CpuState, b: BusState, instruction: u32, f: nat, g: nat)
    requires
        c.thumb_execute(b, instruction, f) is Some,
        f <= g,
    ensures
        c.thumb_execute(b, instruction, g) == c.thumb_execute(b, instruction, f),
{
    lemma_bus_budget(f, g);
    lemma_loops_budget(f, g);
}

proof fn lemma_step_thumb_budget(c: CpuState, b: BusState, f: nat, g: nat)
    requires
        c.step_thumb(b, f) is Some,
        f <= g,
    ensures
        c.step_thumb(b, g) == c.step_thumb(b, f),
{
    let pc = c.registers[15];
    let instruction = b.read_halfword(pc) as u32;
    let c1 = c.set_reg(15, crate::cpu::arm::wadd(pc, 2));
    if instruction != 0 {
        lemma_thumb_execute_budget(c1, b, instruction, f, g);
    }
}

/// A processor step defined with one DMA nesting budget gives the same
/// result with any larger budget.
pub proof fn lemma_step_budget(c: CpuState, b: BusState, f: nat, g: nat)
    requires
        c.step(b, f) is Some,
        f <= g,
    ensures
        c.step(b, g) == c.step(b, f),
{
    let c0 = if c.cpsr & 0x80 == 0 && b.irq_pending() {
        c.enter_irq()
    } else {
        c
    };
    if c0.thumb() {
        lemma_step_thumb_budget(c0, b, f, g);
    } else {
        let pc = c0.registers[15];
        let instruction = b.read_word(pc);
        let c1 = c0.set_reg(15, crate::cpu::arm::wadd(pc, 4));
        if instruction != 0 && c1.condition_met((instruction >> 28u32) & 0xF) {
            lemma_arm_execute_budget(c1, b, instruction, f, g);
        }
    }
}

/// Every budget with which a processor step is defined gives the step's
/// result.
pub proof fn lemma_step_any_budget(c: CpuState, b: BusState, f: nat)
    requires
        c.step(b, f) is Some,
    ensures
        c.step_ok(b),
        c.step_result(b) == c.step(b, f)->0,
{
    let f0 = choose|f: nat| (#[trigger] c.step(b, f)) is Some;
    if f0 <= f {
        lemma_step_budget(c, b, f0, f);
    } else {
        lemma_step_budget(c, b, f, f0);
    }
}

} // verus!
