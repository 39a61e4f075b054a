//! Laws of the arithmetic, logic, multiply and branch instructions: what an
//! ARM data processing instruction and a THUMB format-4 ALU instruction
//! leave in the destination register and in the flags, operation by
//! operation; what the multiplies compute; where a branch goes.
use vstd::prelude::*;
use super::{CpuState, barrel_shift, CPSR_N, CPSR_Z, CPSR_C, CPSR_V};
use super::laws::lemma_set_flag;

verus! {

/// Bit facts about CPSR values: changing one of N, Z, C, V keeps the
/// others, and bit 31 is the sign test.
proof fn lemma_cpsr_bits(a: u32, b: u32, v: u32)
    by (bit_vector)
    ensures
        b & !0x8000_0000u32 == a & !0x8000_0000u32 ==> ((b & 0x4000_0000u32 != 0) == (a & 0x4000_0000u32 != 0)) && ((b & 0x2000_0000u32 != 0) == (a & 0x2000_0000u32 != 0)) && ((b & 0x1000_0000u32 != 0) == (a & 0x1000_0000u32 != 0)),
        b & !0x4000_0000u32 == a & !0x4000_0000u32 ==> ((b & 0x8000_0000u32 != 0) == (a & 0x8000_0000u32 != 0)) && ((b & 0x2000_0000u32 != 0) == (a & 0x2000_0000u32 != 0)) && ((b & 0x1000_0000u32 != 0) == (a & 0x1000_0000u32 != 0)),
        b & !0x2000_0000u32 == a & !0x2000_0000u32 ==> ((b & 0x8000_0000u32 != 0) == (a & 0x8000_0000u32 != 0)) && ((b & 0x4000_0000u32 != 0) == (a & 0x4000_0000u32 != 0)) && ((b & 0x1000_0000u32 != 0) == (a & 0x1000_0000u32 != 0)),
        b & !0x1000_0000u32 == a & !0x1000_0000u32 ==> ((b & 0x8000_0000u32 != 0) == (a & 0x8000_0000u32 != 0)) && ((b & 0x4000_0000u32 != 0) == (a & 0x4000_0000u32 != 0)) && ((b & 0x2000_0000u32 != 0) == (a & 0x2000_0000u32 != 0)),
        ((v >> 31u32) & 1 != 0) == (v >= 0x8000_0000),
        (v & 0x8000_0000 != 0) == (v >= 0x8000_0000),
        (((a ^ b) & (a ^ v) & 0x8000_0000) != 0) == ((a >= 0x8000_0000) != (b >= 0x8000_0000)
            && (v >= 0x8000_0000) != (a >= 0x8000_0000)),
        ((!(a ^ b) & (a ^ v) & 0x8000_0000) != 0) == ((a >= 0x8000_0000) == (b >= 0x8000_0000)
            && (v >= 0x8000_0000) != (a >= 0x8000_0000)),
        ((a & v & 0x8000_0000) != 0) == (a >= 0x8000_0000 && v >= 0x8000_0000),
        (a | 0x20) & 0x20 != 0,
        (a & !0x20u32) & 0x20 == 0,
        (v & 1 == 1) == (v & 1 != 0),
{
}

/// Bounds of instruction fields.
proof fn lemma_fields(x: u32)
    by (bit_vector)
    ensures
        (x >> 21u32) & 0xF < 16,
        (x >> 12u32) & 0xF <= 15,
        x & 0x7 < 8,
        (x >> 3u32) & 0x7 < 8,
        (x >> 6u32) & 0xF < 16,
        (x & 0xFF) & 0xFF == x & 0xFF,
        ((x & 0x7) | (((x >> 7u32) & 1) << 3u32)) < 16,
        (x >> 11u32) & 0x3 < 4,
        (x >> 8u32) & 0x3 < 4,
        (((x >> 3u32) & 0x7) | (((x >> 6u32) & 1) << 3u32)) < 16,
{
}

/// N and Z as set from `v`, then C and V set in turn, read back as from `v`.
proof fn lemma_nz_then_cv(s: CpuState, v: u32, c: bool, cv: bool, o: bool, ov: bool)
    ensures
        ({
            let t0 = s.set_flag(CPSR_Z, v == 0).set_flag(CPSR_N, v >= 0x8000_0000);
            let t1 = if c {
                t0.set_flag(CPSR_C, cv)
            } else {
                t0
            };
            let t2 = if o {
                t1.set_flag(CPSR_V, ov)
            } else {
                t1
            };
            &&& t2.flag_n() == (v >= 0x8000_0000)
            &&& t2.flag_z() == (v == 0)
            &&& t2.flag_c() == if c {
                cv
            } else {
                s.flag_c()
            }
            &&& t2.flag_v() == if o {
                ov
            } else {
                s.flag_v()
            }
            &&& t2.registers == s.registers
        }),
{
    let t = s.set_flag(CPSR_Z, v == 0);
    lemma_set_flag(s, CPSR_Z, v == 0);
    lemma_set_flag(t, CPSR_N, v >= 0x8000_0000);
    let t0 = t.set_flag(CPSR_N, v >= 0x8000_0000);
    lemma_cpsr_bits(s.cpsr, t.cpsr, v);
    lemma_cpsr_bits(t.cpsr, t0.cpsr, v);
    let t1 = if c {
        t0.set_flag(CPSR_C, cv)
    } else {
        t0
    };
    if c {
        lemma_set_flag(t0, CPSR_C, cv);
        lemma_cpsr_bits(t0.cpsr, t1.cpsr, v);
    }
    if o {
        lemma_set_flag(t1, CPSR_V, ov);
        lemma_cpsr_bits(t1.cpsr, t1.set_flag(CPSR_V, ov).cpsr, v);
    }
}

/// An ARM data processing instruction with opcode `opcode` (bits 21-24),
/// first operand `op1` (the value of Rn) and second operand `op2` (from the
/// barrel shifter), writing a destination Rd other than the PC: AND, EOR,
/// SUB, RSB, ADD, ADC, SBC, RSC, ORR, MOV, BIC and MVN leave in Rd,
/// respectively, `op1 & op2`, `op1 ^ op2`, `op1 - op2`, `op2 - op1`,
/// `op1 + op2`, `op1 + op2 + C`, `op1 - op2 + C - 1`, `op2 - op1 + C - 1`
/// (all modulo 2^32, C the carry flag before), `op1 | op2`, `op2`,
/// `op1 & !op2` and `!op2`, and no other register changes; the test
/// opcodes TST, TEQ, CMP and CMN change no register. With the S bit, N is
/// bit 31 and Z the zero test of that value (for the test opcodes, of
/// `op1 & op2`, `op1 ^ op2`, `op1 - op2` and `op1 + op2`).
pub proof fn lemma_data_processing_result(
    c: CpuState,
    instruction: u32,
    is_immediate: bool,
    op1: u32,
    op2: u32,
)
    requires
        c.wf(),
        (instruction >> 12u32) & 0xF != 15,
        op1 == c.read_reg(((instruction >> 16u32) & 0xF) as int),
        op2 == c.operand2(instruction, is_immediate).0,
    ensures
        ({
            let opcode = (instruction >> 21u32) & 0xF;
            let set_flags = (instruction >> 20u32) & 1 == 1;
            let rd = ((instruction >> 12u32) & 0xF) as int;
            let carry: int = if c.cpsr & 0x2000_0000 != 0 {
                1
            } else {
                0
            };
            let r = c.data_processing(instruction, is_immediate);
            let v = if 8 <= opcode <= 11 {
                if opcode == 8 {
                    op1 & op2
                } else if opcode == 9 {
                    op1 ^ op2
                } else if opcode == 10 {
                    ((op1 - op2) % 0x1_0000_0000) as u32
                } else {
                    ((op1 + op2) % 0x1_0000_0000) as u32
                }
            } else {
                r.registers[rd]
            };
            &&& opcode == 0 ==> r.registers[rd] == op1 & op2
            &&& opcode == 1 ==> r.registers[rd] == op1 ^ op2
            &&& opcode == 2 ==> r.registers[rd] as int == (op1 - op2) % 0x1_0000_0000
            &&& opcode == 3 ==> r.registers[rd] as int == (op2 - op1) % 0x1_0000_0000
            &&& opcode == 4 ==> r.registers[rd] as int == (op1 + op2) % 0x1_0000_0000
            &&& opcode == 5 ==> r.registers[rd] as int == (op1 + op2 + carry) % 0x1_0000_0000
            &&& opcode == 6 ==> r.registers[rd] as int == (op1 - op2 + carry - 1) % 0x1_0000_0000
            &&& opcode == 7 ==> r.registers[rd] as int == (op2 - op1 + carry - 1) % 0x1_0000_0000
            &&& opcode == 12 ==> r.registers[rd] == op1 | op2
            &&& opcode == 13 ==> r.registers[rd] == op2
            &&& opcode == 14 ==> r.registers[rd] == op1 & !op2
            &&& opcode == 15 ==> r.registers[rd] == !op2
            &&& forall|j: int|
                0 <= j < 16 && (j != rd || 8 <= opcode <= 11) ==> #[trigger] r.registers[j]
                    == c.registers[j]
            &&& set_flags ==> r.flag_n() == (v >= 0x8000_0000) && r.flag_z() == (v == 0)
            &&& set_flags && (opcode == 2 || opcode == 10) ==> r.flag_c() == (op1 >= op2)
                && r.flag_v() == ((op1 >= 0x8000_0000) != (op2 >= 0x8000_0000) && (v
                >= 0x8000_0000) != (op1 >= 0x8000_0000))
            &&& set_flags && opcode == 3 ==> r.flag_c() == (op2 >= op1) && r.flag_v() == ((op2
                >= 0x8000_0000) != (op1 >= 0x8000_0000) && (v >= 0x8000_0000) != (op2
                >= 0x8000_0000))
            &&& set_flags && (opcode == 4 || opcode == 11) ==> r.flag_c() == (op1 + op2
                > 0xFFFF_FFFF) && r.flag_v() == ((op1 >= 0x8000_0000) == (op2 >= 0x8000_0000) && (v
                >= 0x8000_0000) != (op1 >= 0x8000_0000))
            &&& set_flags && opcode == 5 ==> r.flag_c() == (op1 + op2 + carry > 0xFFFF_FFFF)
                && r.flag_v() == ((op1 >= 0x8000_0000) == (op2 >= 0x8000_0000) && (v
                >= 0x8000_0000) != (op1 >= 0x8000_0000))
            &&& set_flags && opcode == 6 ==> r.flag_c() == (op1 + carry > op2) && r.flag_v() == (
            (op1 >= 0x8000_0000) != (op2 >= 0x8000_0000) && (v >= 0x8000_0000) != (op1
                >= 0x8000_0000))
            &&& set_flags && opcode == 7 ==> r.flag_c() == (op2 + carry > op1) && r.flag_v() == (
            (op2 >= 0x8000_0000) != (op1 >= 0x8000_0000) && (v >= 0x8000_0000) != (op2
                >= 0x8000_0000))
            &&& set_flags && (opcode <= 1 || opcode == 8 || opcode == 9 || opcode >= 12) ==> r.flag_c()
                == c.operand2(instruction, is_immediate).1 && r.flag_v() == c.flag_v()
        }),
{
    let opcode = (instruction >> 21u32) & 0xF;
    let set_flags = (instruction >> 20u32) & 1 == 1;
    let rd = ((instruction >> 12u32) & 0xF) as int;
    let carry: int = if c.flag_c() {
        1
    } else {
        0
    };
    assert(c.flag_c() == (c.cpsr & 0x2000_0000 != 0));
    let result = super::arm::alu_result(opcode, op1, op2, carry);
    let is_test = 0x8 <= opcode <= 0xB;
    let s1 = if !is_test {
        c.set_reg(rd, result)
    } else {
        c
    };
    lemma_fields(instruction);
    assert(rd < 15);
    if set_flags {
        lemma_cpsr_bits(op1, op2, result);
        lemma_cpsr_bits(op2, op1, result);
        let shift_carry = c.operand2(instruction, is_immediate).1;
        let t0 = s1.set_flag(CPSR_Z, result == 0).set_flag(CPSR_N, result >= 0x8000_0000);
        assert(s1.set_flag(CPSR_Z, result == 0).set_flag(CPSR_N, super::bit31(result)) == t0);
        lemma_nz_then_cv(s1, result, false, false, false, false);
        if opcode == 0x2 || opcode == 0xA {
            lemma_nz_then_cv(s1, result, true, op1 >= op2, true, super::arm::sub_overflow(op1, op2, result));
        } else if opcode == 0x3 {
            lemma_nz_then_cv(s1, result, true, op2 >= op1, true, super::arm::sub_overflow(op2, op1, result));
        } else if opcode == 0x4 || opcode == 0xB {
            lemma_nz_then_cv(s1, result, true, op1 + op2 > 0xFFFF_FFFF, true, super::arm::add_overflow(op1, op2, result));
        } else if opcode == 0x5 {
            lemma_nz_then_cv(s1, result, true, op1 + op2 + carry > 0xFFFF_FFFF, true, super::arm::add_overflow(op1, op2, result));
        } else if opcode == 0x6 {
            lemma_nz_then_cv(s1, result, true, op1 + carry > op2, true, super::arm::sub_overflow(op1, op2, result));
        } else if opcode == 0x7 {
            lemma_nz_then_cv(s1, result, true, op2 + carry > op1, true, super::arm::sub_overflow(op2, op1, result));
        } else {
            lemma_nz_then_cv(s1, result, true, shift_carry, false, false);
        }
    }
}

/// N and Z set from `v` read back as from `v`.
proof fn lemma_set_nz(s: CpuState, v: u32)
    ensures
        s.set_nz(v).flag_n() == (v >= 0x8000_0000),
        s.set_nz(v).flag_z() == (v == 0),
        s.set_nz(v).flag_c() == s.flag_c(),
        s.set_nz(v).flag_v() == s.flag_v(),
        s.set_nz(v).registers == s.registers,
{
    let t = s.set_flag(CPSR_N, super::bit31(v));
    lemma_set_flag(s, CPSR_N, super::bit31(v));
    lemma_set_flag(t, CPSR_Z, v == 0);
    lemma_cpsr_bits(s.cpsr, t.cpsr, v);
    lemma_cpsr_bits(t.cpsr, t.set_flag(CPSR_Z, v == 0).cpsr, v);
}

/// C set and then V set read back as set, the other flags kept.
proof fn lemma_c_then_v(s: CpuState, cv: bool, o: bool, ov: bool)
    ensures
        ({
            let t1 = s.set_flag(CPSR_C, cv);
            let t2 = if o {
                t1.set_flag(CPSR_V, ov)
            } else {
                t1
            };
            &&& t2.flag_c() == cv
            &&& t2.flag_v() == if o {
                ov
            } else {
                s.flag_v()
            }
            &&& t2.flag_n() == s.flag_n()
            &&& t2.flag_z() == s.flag_z()
            &&& t2.registers == s.registers
        }),
{
    let t1 = s.set_flag(CPSR_C, cv);
    lemma_set_flag(s, CPSR_C, cv);
    lemma_cpsr_bits(s.cpsr, t1.cpsr, 0);
    if o {
        lemma_set_flag(t1, CPSR_V, ov);
        lemma_cpsr_bits(t1.cpsr, t1.set_flag(CPSR_V, ov).cpsr, 0);
    }
}

/// A THUMB format-4 instruction with operation `op` (bits 6-9) on Rd (value
/// `a`) and Rs (value `b`): AND, EOR, ADC, SBC, NEG, ORR, MUL, BIC and MVN
/// leave in Rd `a & b`, `a ^ b`, `a + b + C`, `a - b + C - 1`, `0 - b`,
/// `a | b`, `a * b` (arithmetic modulo 2^32, C the carry flag before),
/// `a & !b` and `!b`; LSL, LSR, ASR and ROR shift `a` by the bottom byte of
/// `b` (0 leaving `a`; 32 or more giving 0 for LSL and LSR and the sign for
/// ASR); no other register changes, and TST, CMP and CMN change no register.
/// N is bit 31 and Z the zero test of that value (for TST, CMP and CMN of
/// `a & b`, `a - b` and `a + b`).
pub proof fn lemma_thumb_alu_result(c: CpuState, instruction: u32, a: u32, b: u32)
    requires
        c.wf(),
        a == c.registers[(instruction & 0x7) as int],
        b == c.registers[((instruction >> 3u32) & 0x7) as int],
    ensures
        ({
            let op = (instruction >> 6u32) & 0xF;
            let rd = (instruction & 0x7) as int;
            let n = b & 0xFF;
            let carry: int = if c.cpsr & 0x2000_0000 != 0 {
                1
            } else {
                0
            };
            let r = c.thumb_alu(instruction);
            let v = if op == 8 {
                a & b
            } else if op == 10 {
                ((a - b) % 0x1_0000_0000) as u32
            } else if op == 11 {
                ((a + b) % 0x1_0000_0000) as u32
            } else {
                r.registers[rd]
            };
            &&& op == 0 ==> r.registers[rd] == a & b
            &&& op == 1 ==> r.registers[rd] == a ^ b
            &&& op == 2 ==> r.registers[rd] == if n == 0 {
                a
            } else if n < 32 {
                a << n
            } else {
                0
            }
            &&& op == 3 ==> r.registers[rd] == if n == 0 {
                a
            } else if n < 32 {
                a >> n
            } else {
                0
            }
            &&& op == 4 ==> r.registers[rd] == if n == 0 {
                a
            } else if n < 32 {
                if a >= 0x8000_0000 {
                    !((!a) >> n)
                } else {
                    a >> n
                }
            } else if a >= 0x8000_0000 {
                0xFFFF_FFFF
            } else {
                0
            }
            &&& op == 5 ==> r.registers[rd] as int == (a + b + carry) % 0x1_0000_0000
            &&& op == 6 ==> r.registers[rd] as int == (a - b + carry - 1) % 0x1_0000_0000
            &&& op == 7 ==> r.registers[rd] == if n % 32 == 0 {
                a
            } else {
                (a >> (n % 32)) | (a << ((32 - n % 32) as u32))
            }
            &&& op == 9 ==> r.registers[rd] as int == (0 - b) % 0x1_0000_0000
            &&& op == 12 ==> r.registers[rd] == a | b
            &&& op == 13 ==> r.registers[rd] as int == (a * b) % 0x1_0000_0000
            &&& op == 14 ==> r.registers[rd] == a & !b
            &&& op == 15 ==> r.registers[rd] == !b
            &&& forall|j: int|
                0 <= j < 16 && (j != rd || op == 8 || op == 10 || op == 11)
                    ==> #[trigger] r.registers[j] == c.registers[j]
            &&& r.flag_n() == (v >= 0x8000_0000)
            &&& r.flag_z() == (v == 0)
            &&& op == 5 ==> r.flag_c() == (a + b + carry > 0xFFFF_FFFF) && r.flag_v() == ((a
                >= 0x8000_0000) == (b >= 0x8000_0000) && (v >= 0x8000_0000) != (a >= 0x8000_0000))
            &&& op == 6 ==> r.flag_c() == (a + carry > b) && r.flag_v() == ((a >= 0x8000_0000) != (b
                >= 0x8000_0000) && (v >= 0x8000_0000) != (a >= 0x8000_0000))
            &&& op == 9 ==> r.flag_c() == (b == 0) && r.flag_v() == (b >= 0x8000_0000 && v
                >= 0x8000_0000)
            &&& op == 10 ==> r.flag_c() == (a >= b) && r.flag_v() == ((a >= 0x8000_0000) != (b
                >= 0x8000_0000) && (v >= 0x8000_0000) != (a >= 0x8000_0000))
            &&& op == 11 ==> r.flag_c() == (a + b > 0xFFFF_FFFF) && r.flag_v() == ((a
                >= 0x8000_0000) == (b >= 0x8000_0000) && (v >= 0x8000_0000) != (a >= 0x8000_0000))
            &&& op == 13 ==> !r.flag_c() && r.flag_v() == c.flag_v()
            &&& (op <= 1 || op == 8 || op == 12 || op >= 14) ==> r.flag_c() == c.flag_c()
                && r.flag_v() == c.flag_v()
        }),
{
    let op = (instruction >> 6u32) & 0xF;
    let rs = ((instruction >> 3u32) & 0x7) as int;
    let rd = (instruction & 0x7) as int;
    assert(c.flag_c() == (c.cpsr & 0x2000_0000 != 0));
    lemma_fields(instruction);
    lemma_fields(b);
    lemma_cpsr_bits(0, 0, a);
    let res = c.thumb_alu_op(op, a, b);
    let carry: int = if c.flag_c() {
        1
    } else {
        0
    };
    lemma_cpsr_bits(a, b, res.1);
    lemma_cpsr_bits(b, 0, res.1);
    if op == 5 {
        lemma_c_then_v(c, a + b + carry > 0xFFFF_FFFF, true, super::arm::add_overflow(a, b, res.1));
    } else if op == 6 {
        lemma_c_then_v(c, a + carry > b, true, super::arm::sub_overflow(a, b, res.1));
    } else if op == 9 {
        lemma_c_then_v(c, b == 0, true, (b & res.1 & 0x8000_0000) != 0);
    } else if op == 10 {
        lemma_c_then_v(c, a >= b, true, super::arm::sub_overflow(a, b, res.1));
    } else if op == 11 {
        lemma_c_then_v(c, a + b > 0xFFFF_FFFF, true, super::arm::add_overflow(a, b, res.1));
    } else if op == 13 {
        lemma_c_then_v(c, false, false, false);
    }
    assert(res.0.registers == c.registers);
    let s1 = if op == 0x8 || op == 0xA || op == 0xB {
        res.0
    } else {
        res.0.set_reg(rd, res.1)
    };
    lemma_set_nz(s1, res.1);
}

/// A 24-bit field read as a signed number.
pub open spec fn signed24(x: u32) -> int {
    if x >= 0x80_0000 {
        x - 0x100_0000
    } else {
        x as int
    }
}

proof fn lemma_branch_offset(off: u32)
    by (bit_vector)
    requires
        off < 0x100_0000,
    ensures
        off & 0x0080_0000 != 0 ==> (off | 0xFF00_0000) << 2u32 == ((4 * off + 0xFC00_0000)
            % 0x1_0000_0000) as u32,
        off & 0x0080_0000 == 0 ==> off << 2u32 == 4 * off,
        (off & 0x0080_0000 != 0) == (off >= 0x80_0000),
{
}

/// B and BL in ARM state (the PC register already past the branch): the PC
/// becomes the branch's address plus 8 plus four times the signed 24-bit
/// offset, modulo 2^32; BL stores the address after the branch in LR, B
/// keeps it; no other register changes.
pub proof fn lemma_branch_target(c: CpuState, instruction: u32)
    requires
        c.wf(),
        !c.thumb(),
    ensures
        ({
            let off = instruction & 0x00FF_FFFF;
            let link = (instruction >> 24u32) & 1 == 1;
            let r = c.branch(instruction);
            &&& r.registers[15] as int == (c.registers[15] + 4 + 4 * signed24(off))
                % 0x1_0000_0000
            &&& r.registers[14] == if link {
                c.registers[15]
            } else {
                c.registers[14]
            }
            &&& forall|j: int| 0 <= j < 14 ==> #[trigger] r.registers[j] == c.registers[j]
        }),
{
    let off = instruction & 0x00FF_FFFF;
    assert(off < 0x100_0000) by {
        crate::bits::lemma_and_le_u32(instruction, 0x00FF_FFFF);
    }
    lemma_branch_offset(off);
    let offset = (if off & 0x0080_0000 != 0 {
        off | 0xFF00_0000
    } else {
        off
    }) << 2u32;
    let base = vstd::wrapping::u32_specs::wrapping_add(c.registers[15], 4);
    assert(base as int == (c.registers[15] + 4) % 0x1_0000_0000);
    let t = vstd::wrapping::u32_specs::wrapping_add(base, offset);
    assert(t as int == (base + offset) % 0x1_0000_0000);
    if off >= 0x80_0000 {
        assert(offset as int == (4 * off + 0xFC00_0000) % 0x1_0000_0000);
        vstd::arithmetic::div_mod::lemma_add_mod_noop(
            c.registers[15] + 4,
            4 * off + 0xFC00_0000,
            0x1_0000_0000,
        );
        vstd::arithmetic::div_mod::lemma_mod_add_multiples_vanish(
            c.registers[15] + 4 + 4 * signed24(off),
            0x1_0000_0000,
        );
    } else {
        vstd::arithmetic::div_mod::lemma_add_mod_noop(c.registers[15] + 4, 4 * off, 0x1_0000_0000);
        assert(4 * off < 0x1_0000_0000);
    }
}

proof fn lemma_split64(x: u64)
    by (bit_vector)
    ensures
        ((x >> 32u64) as u32) * 0x1_0000_0000 + (x as u32) == x,
{
}

/// MUL and MLA: Rd becomes `Rm * Rs` (plus Rn for MLA) modulo 2^32;
/// UMULL/UMLAL and SMULL/SMLAL: RdHi:RdLo becomes the 64-bit product of Rm
/// and Rs read unsigned or signed (plus RdHi:RdLo before for the
/// accumulating forms), modulo 2^64.
pub proof fn lemma_multiply_result(c: CpuState, instruction: u32)
    requires
        c.wf(),
        instruction & 0x0FFF_FFF0 != 0x012F_FF10,
        instruction & 0x0DB0_F000 != 0x0120_F000,
        instruction & 0x0FBF_0FFF != 0x010F_0000,
    ensures
        ({
            let rm = c.registers[(instruction & 0xF) as int];
            let rs = c.registers[((instruction >> 8u32) & 0xF) as int];
            let r = c.special(instruction)->0;
            &&& instruction & 0x0FC0_00F0 == 0x0000_0090 ==> {
                let rd = ((instruction >> 16u32) & 0xF) as int;
                let rn = c.registers[((instruction >> 12u32) & 0xF) as int];
                &&& c.special(instruction) is Some
                &&& r.registers[rd] as int == (rm * rs + if (instruction >> 21u32) & 1 == 1 {
                    rn as int
                } else {
                    0
                }) % 0x1_0000_0000
            }
            &&& instruction & 0x0FC0_00F0 != 0x0000_0090 && instruction & 0x0F80_00F0
                == 0x0080_0090 ==> {
                let hi = ((instruction >> 16u32) & 0xF) as int;
                let lo = ((instruction >> 12u32) & 0xF) as int;
                let product = if (instruction >> 22u32) & 1 == 1 {
                    crate::cpu::bios_laws::signed(rm) * crate::cpu::bios_laws::signed(rs)
                } else {
                    rm * rs
                };
                let acc = if (instruction >> 21u32) & 1 == 1 {
                    c.registers[hi] * 0x1_0000_0000 + c.registers[lo]
                } else {
                    0
                };
                &&& c.special(instruction) is Some
                &&& hi != lo ==> r.registers[hi] * 0x1_0000_0000 + r.registers[lo] == (product
                    + acc) % 0x1_0000_0000_0000_0000
            }
        }),
{
    assert((instruction >> 16u32) & 0xF < 16 && (instruction >> 12u32) & 0xF < 16
        && (instruction >> 8u32) & 0xF < 16 && instruction & 0xF < 16) by {
        crate::bits::lemma_and_le_u32(instruction >> 16u32, 0xF);
        crate::bits::lemma_and_le_u32(instruction >> 12u32, 0xF);
        crate::bits::lemma_and_le_u32(instruction >> 8u32, 0xF);
        crate::bits::lemma_and_le_u32(instruction, 0xF);
    }
    if instruction & 0x0FC0_00F0 != 0x0000_0090 && instruction & 0x0F80_00F0 == 0x0080_0090 {
        let rm = c.registers[(instruction & 0xF) as int];
        let rs = c.registers[((instruction >> 8u32) & 0xF) as int];
        let hi = ((instruction >> 16u32) & 0xF) as int;
        let lo = ((instruction >> 12u32) & 0xF) as int;
        let product: int = if (instruction >> 22u32) & 1 == 1 {
            crate::bits::sext32(rm) * crate::bits::sext32(rs)
        } else {
            rm as int * rs as int
        };
        let acc: int = if (instruction >> 21u32) & 1 == 1 {
            c.registers[hi] as int * 0x1_0000_0000 + c.registers[lo] as int
        } else {
            0
        };
        let result = ((product + acc) % 0x1_0000_0000_0000_0000) as u64;
        lemma_split64(result);
    }
}

/// THUMB format 2 (ADD / SUB Rd, Rs, Rn or #imm3) and format 3 (MOV / CMP /
/// ADD / SUB Rd, #imm8): ADD leaves `x + y` and SUB and CMP compute `x - y`
/// (modulo 2^32), MOV leaves the immediate, CMP changes no register; N and Z
/// follow the value, ADD sets C on unsigned overflow and V on signed
/// overflow, SUB and CMP set C when no borrow occurs (`x >= y`) and V on
/// signed overflow; MOV keeps C and V.
pub proof fn lemma_thumb_add_sub_imm_result(c: CpuState, instruction: u32)
    requires
        c.wf(),
    ensures
        ({
            let top3 = (instruction >> 13u32) & 0x7;
            let f2 = top3 == 0 && (instruction >> 11u32) & 0x3 == 3;
            let is_sub2 = (instruction >> 9u32) & 1 == 1;
            let x2 = c.registers[((instruction >> 3u32) & 0x7) as int];
            let y2 = if (instruction >> 10u32) & 1 == 1 {
                (instruction >> 6u32) & 0x7
            } else {
                c.registers[((instruction >> 6u32) & 0x7) as int]
            };
            let r2 = c.thumb_add_sub(instruction);
            let v2 = r2.registers[(instruction & 0x7) as int];
            let op3 = (instruction >> 11u32) & 0x3;
            let x3 = c.registers[((instruction >> 8u32) & 0x7) as int];
            let y3 = instruction & 0xFF;
            let r3 = c.thumb_immediate(instruction);
            let v3 = if op3 == 1 {
                ((x3 - y3) % 0x1_0000_0000) as u32
            } else {
                r3.registers[((instruction >> 8u32) & 0x7) as int]
            };
            &&& !is_sub2 ==> v2 as int == (x2 + y2) % 0x1_0000_0000 && r2.flag_c() == (x2 + y2
                > 0xFFFF_FFFF) && r2.flag_v() == ((x2 >= 0x8000_0000) == (y2 >= 0x8000_0000) && (v2
                >= 0x8000_0000) != (x2 >= 0x8000_0000))
            &&& is_sub2 ==> v2 as int == (x2 - y2) % 0x1_0000_0000 && r2.flag_c() == (x2 >= y2)
                && r2.flag_v() == ((x2 >= 0x8000_0000) != (y2 >= 0x8000_0000) && (v2
                >= 0x8000_0000) != (x2 >= 0x8000_0000))
            &&& r2.flag_n() == (v2 >= 0x8000_0000) && r2.flag_z() == (v2 == 0)
            &&& op3 == 0 ==> v3 == y3 && r3.flag_c() == c.flag_c() && r3.flag_v() == c.flag_v()
            &&& op3 == 1 ==> r3.registers == c.registers
            &&& op3 == 2 ==> v3 as int == (x3 + y3) % 0x1_0000_0000 && r3.flag_c() == (x3 + y3
                > 0xFFFF_FFFF) && r3.flag_v() == ((x3 >= 0x8000_0000) == (y3 >= 0x8000_0000) && (v3
                >= 0x8000_0000) != (x3 >= 0x8000_0000))
            &&& (op3 == 1 || op3 == 3) ==> r3.flag_c() == (x3 >= y3) && r3.flag_v() == ((x3
                >= 0x8000_0000) != (y3 >= 0x8000_0000) && (v3 >= 0x8000_0000) != (x3
                >= 0x8000_0000))
            &&& op3 == 3 ==> v3 as int == (x3 - y3) % 0x1_0000_0000
            &&& r3.flag_n() == (v3 >= 0x8000_0000) && r3.flag_z() == (v3 == 0)
        }),
{
    lemma_fields(instruction);
    assert((instruction >> 6u32) & 0x7 < 8 && (instruction >> 8u32) & 0x7 < 8) by {
        crate::bits::lemma_and_le_u32(instruction >> 6u32, 0x7);
        crate::bits::lemma_and_le_u32(instruction >> 8u32, 0x7);
    }
    // Format 2.
    let is_sub2 = (instruction >> 9u32) & 1 == 1;
    let rd2 = (instruction & 0x7) as int;
    let x2 = c.registers[((instruction >> 3u32) & 0x7) as int];
    let y2 = if (instruction >> 10u32) & 1 == 1 {
        (instruction >> 6u32) & 0x7
    } else {
        c.registers[((instruction >> 6u32) & 0x7) as int]
    };
    let res2 = if is_sub2 {
        super::arm::mod32(x2 - y2)
    } else {
        super::arm::mod32(x2 + y2)
    };
    let s2 = c.set_reg(rd2, res2);
    lemma_set_nz(s2, res2);
    lemma_cpsr_bits(x2, y2, res2);
    if is_sub2 {
        lemma_c_then_v(s2.set_nz(res2), x2 >= y2, true, super::arm::sub_overflow(x2, y2, res2));
    } else {
        lemma_c_then_v(
            s2.set_nz(res2),
            x2 + y2 > 0xFFFF_FFFF,
            true,
            super::arm::add_overflow(x2, y2, res2),
        );
    }
    // Format 3.
    let op3 = (instruction >> 11u32) & 0x3;
    let rd3 = ((instruction >> 8u32) & 0x7) as int;
    let x3 = c.registers[rd3];
    let y3 = instruction & 0xFF;
    let res3 = if op3 == 0 {
        y3
    } else if op3 == 2 {
        super::arm::mod32(x3 + y3)
    } else {
        super::arm::mod32(x3 - y3)
    };
    let t1 = if op3 != 1 {
        c.set_reg(rd3, res3)
    } else {
        c
    };
    lemma_set_nz(t1, res3);
    lemma_cpsr_bits(x3, y3, res3);
    if op3 == 1 || op3 == 3 {
        lemma_c_then_v(t1.set_nz(res3), x3 >= y3, true, super::arm::sub_overflow(x3, y3, res3));
    } else if op3 == 2 {
        lemma_c_then_v(
            t1.set_nz(res3),
            x3 + y3 > 0xFFFF_FFFF,
            true,
            super::arm::add_overflow(x3, y3, res3),
        );
    }
}

proof fn lemma_thumb_branch_offsets(a: u32, b: u32)
    by (bit_vector)
    requires
        a < 0x100,
        b < 0x800,
    ensures
        a & 0x80 != 0 ==> (a | 0xFFFF_FF00) << 1u32 == ((2 * a + 0xFFFF_FE00) % 0x1_0000_0000) as u32,
        a & 0x80 == 0 ==> a << 1u32 == 2 * a,
        (a & 0x80 != 0) == (a >= 0x80),
        b & 0x400 != 0 ==> (b | 0xFFFF_F800) << 1u32 == ((2 * b + 0xFFFF_F000) % 0x1_0000_0000) as u32,
        b & 0x400 == 0 ==> b << 1u32 == 2 * b,
        (b & 0x400 != 0) == (b >= 0x400),
{
}

/// THUMB conditional (format 16) and unconditional (format 18) branches in
/// THUMB state (the PC register already past the branch): when taken, the PC
/// becomes the branch's address plus 4 plus twice the signed 8-bit (format
/// 16) or 11-bit (format 18) offset, modulo 2^32; a conditional branch whose
/// condition fails changes nothing.
pub proof fn lemma_thumb_branch_target(c: CpuState, instruction: u32)
    requires
        c.wf(),
        c.thumb(),
    ensures
        ({
            let a = instruction & 0xFF;
            let b = instruction & 0x7FF;
            let sa: int = if a >= 0x80 {
                a - 0x100
            } else {
                a as int
            };
            let sb: int = if b >= 0x400 {
                b - 0x800
            } else {
                b as int
            };
            let r16 = c.thumb_conditional_branch(instruction);
            let r18 = c.thumb_branch(instruction);
            &&& c.condition_met((instruction >> 8u32) & 0xF) ==> r16.registers[15] as int == (
            c.registers[15] + 2 + 2 * sa) % 0x1_0000_0000
            &&& !c.condition_met((instruction >> 8u32) & 0xF) ==> r16 == c
            &&& r18.registers[15] as int == (c.registers[15] + 2 + 2 * sb) % 0x1_0000_0000
            &&& forall|j: int|
                0 <= j < 15 ==> #[trigger] r16.registers[j] == c.registers[j]
                    && r18.registers[j] == c.registers[j]
        }),
{
    let a = instruction & 0xFF;
    let b = instruction & 0x7FF;
    crate::bits::lemma_and_le_u32(instruction, 0xFF);
    crate::bits::lemma_and_le_u32(instruction, 0x7FF);
    lemma_thumb_branch_offsets(a, b);
    let base = vstd::wrapping::u32_specs::wrapping_add(c.registers[15], 2);
    assert(base as int == (c.registers[15] + 2) % 0x1_0000_0000);
    let oa = (if a & 0x80 != 0 {
        a | 0xFFFF_FF00
    } else {
        a
    }) << 1u32;
    let ob = (if b & 0x400 != 0 {
        b | 0xFFFF_F800
    } else {
        b
    }) << 1u32;
    if a >= 0x80 {
        vstd::arithmetic::div_mod::lemma_add_mod_noop(c.registers[15] + 2, 2 * a + 0xFFFF_FE00, 0x1_0000_0000);
        vstd::arithmetic::div_mod::lemma_mod_add_multiples_vanish(c.registers[15] + 2 + 2 * (a - 0x100), 0x1_0000_0000);
    } else {
        vstd::arithmetic::div_mod::lemma_add_mod_noop(c.registers[15] + 2, 2 * a, 0x1_0000_0000);
    }
    if b >= 0x400 {
        vstd::arithmetic::div_mod::lemma_add_mod_noop(c.registers[15] + 2, 2 * b + 0xFFFF_F000, 0x1_0000_0000);
        vstd::arithmetic::div_mod::lemma_mod_add_multiples_vanish(c.registers[15] + 2 + 2 * (b - 0x800), 0x1_0000_0000);
    } else {
        vstd::arithmetic::div_mod::lemma_add_mod_noop(c.registers[15] + 2, 2 * b, 0x1_0000_0000);
    }
}

/// The second operand of an ARM data processing instruction:
/// - an immediate (bit 25) is the 8-bit value rotated right by twice the
///   4-bit rotate field;
/// - a register Rm (`rm`, read as an operand) shifted by an immediate amount
///   `n` (bits 7-11): LSL by `n`; LSR and ASR by `n`, where 0 means 32 (LSR
///   gives 0, ASR copies the sign bit everywhere); ROR by `n`, where 0 means
///   one place through the carry (RRX). (Shifts by a register's bottom byte
///   are stated for THUMB format 4 in [`lemma_thumb_alu_result`].)
pub proof fn lemma_operand2(c: CpuState, instruction: u32, is_immediate: bool, rm: u32)
    requires
        rm == c.read_reg((instruction & 0xF) as int),
        !is_immediate ==> (instruction >> 4u32) & 1 == 0,
    ensures
        ({
            let op2 = c.operand2(instruction, is_immediate).0;
            let imm = instruction & 0xFF;
            let rot = (((instruction >> 8u32) & 0xF) * 2) as u32;
            let st = (instruction >> 5u32) & 0x3;
            let n = (instruction >> 7u32) & 0x1F;
            let sign: u32 = if rm >= 0x8000_0000 {
                0xFFFF_FFFF
            } else {
                0
            };
            &&& is_immediate ==> op2 == if rot == 0 {
                imm
            } else {
                (imm >> rot) | (imm << ((32 - rot) as u32))
            }
            &&& !is_immediate && st == 0 ==> op2 == if n == 0 {
                rm
            } else {
                rm << n
            }
            &&& !is_immediate && st == 1 ==> op2 == if n == 0 {
                0
            } else {
                rm >> n
            }
            &&& !is_immediate && st == 2 ==> op2 == if n == 0 {
                sign
            } else if rm >= 0x8000_0000 {
                !((!rm) >> n)
            } else {
                rm >> n
            }
            &&& !is_immediate && st == 3 ==> op2 == if n == 0 {
                (rm >> 1u32) | if c.cpsr & 0x2000_0000 != 0 {
                    0x8000_0000u32
                } else {
                    0
                }
            } else {
                (rm >> n) | (rm << ((32 - n) as u32))
            }
        }),
{
    lemma_cpsr_bits(rm, 0, rm);
    assert(c.flag_c() == (c.cpsr & 0x2000_0000 != 0));
    assert((instruction >> 7u32) & 0x1F < 32 && (instruction >> 5u32) & 0x3 < 4) by {
        crate::bits::lemma_and_le_u32(instruction >> 7u32, 0x1F);
        crate::bits::lemma_and_le_u32(instruction >> 5u32, 0x3);
    }
}

/// THUMB format 1 (LSL / LSR / ASR Rd, Rs, #n): Rd becomes Rs (`v`) shifted
/// by `n` (bits 6-10), where for LSR and ASR 0 means 32 (LSR gives 0, ASR
/// the sign fill); N and Z follow the result; C is the last bit shifted out
/// (LSL #0 keeps C).
pub proof fn lemma_thumb_shift_result(c: CpuState, instruction: u32, v: u32)
    requires
        c.wf(),
        v == c.registers[((instruction >> 3u32) & 0x7) as int],
        (instruction >> 11u32) & 0x3 != 3,
    ensures
        ({
            let op = (instruction >> 11u32) & 0x3;
            let n = (instruction >> 6u32) & 0x1F;
            let r = c.thumb_shift(instruction);
            let res = r.registers[(instruction & 0x7) as int];
            let sign: u32 = if v >= 0x8000_0000 {
                0xFFFF_FFFF
            } else {
                0
            };
            &&& op == 0 ==> res == if n == 0 {
                v
            } else {
                v << n
            } && r.flag_c() == if n == 0 {
                c.flag_c()
            } else {
                (v >> ((32 - n) as u32)) & 1 != 0
            }
            &&& op == 1 ==> res == if n == 0 {
                0
            } else {
                v >> n
            } && r.flag_c() == if n == 0 {
                v >= 0x8000_0000
            } else {
                (v >> ((n - 1) as u32)) & 1 != 0
            }
            &&& op == 2 ==> res == if n == 0 {
                sign
            } else if v >= 0x8000_0000 {
                !((!v) >> n)
            } else {
                v >> n
            } && r.flag_c() == if n == 0 {
                v >= 0x8000_0000
            } else {
                (v >> ((n - 1) as u32)) & 1 != 0
            }
            &&& r.flag_n() == (res >= 0x8000_0000)
            &&& r.flag_z() == (res == 0)
        }),
{
    lemma_fields(instruction);
    lemma_cpsr_bits(v, 0, v);
    let op = (instruction >> 11u32) & 0x3;
    let n = (instruction >> 6u32) & 0x1F;
    assert(n < 32) by {
        crate::bits::lemma_and_le_u32(instruction >> 6u32, 0x1F);
    }
    let amount: u32 = if n == 0 {
        32
    } else {
        n
    };
    let sh = if op == 0 {
        barrel_shift(v, 0, n, true, c.flag_c())
    } else if op == 1 {
        barrel_shift(v, 1, amount, true, c.flag_c())
    } else {
        barrel_shift(v, 2, amount, true, c.flag_c())
    };
    let rd = (instruction & 0x7) as int;
    let s1 = c.set_reg(rd, sh.0);
    lemma_set_nz(s1, sh.0);
    lemma_c_then_v(s1.set_nz(sh.0), sh.1, false, false);
    assert(s1.set_nzc(sh.0, sh.1) == s1.set_nz(sh.0).set_flag(CPSR_C, sh.1));
    if op == 0 {
        assert(c.thumb_shift(instruction) == s1.set_nzc(sh.0, sh.1));
    } else if op == 1 {
        assert(c.thumb_shift(instruction) == s1.set_nzc(sh.0, sh.1));
    } else {
        assert(op == 2);
        assert(c.thumb_shift(instruction) == s1.set_nzc(sh.0, sh.1));
    }
}

/// THUMB format 5 with the high registers (Rd and Rs read as operands, `x`
/// and `y`): ADD to a register other than the PC leaves `x + y` modulo
/// 2^32; MOV leaves `y` (bit 0 cleared when writing the PC); CMP changes no
/// register and sets N and Z from `x - y`, C when `x >= y` and V on signed
/// overflow; BX jumps to `y` with bit 0 cleared, in THUMB state exactly when
/// bit 0 of `y` is set (word aligned otherwise).
pub proof fn lemma_thumb_hi_reg_result(c: CpuState, instruction: u32, x: u32, y: u32)
    requires
        c.wf(),
        x == c.read_reg(((instruction & 0x7) | (((instruction >> 7u32) & 1) << 3u32)) as int),
        y == c.read_reg(
            (((instruction >> 3u32) & 0x7) | (((instruction >> 6u32) & 1) << 3u32)) as int,
        ),
    ensures
        ({
            let op = (instruction >> 8u32) & 0x3;
            let rd = ((instruction & 0x7) | (((instruction >> 7u32) & 1) << 3u32)) as int;
            let r = c.thumb_hi_reg(instruction);
            let d = ((x - y) % 0x1_0000_0000) as u32;
            &&& op == 0 && rd != 15 ==> r.registers[rd] as int == (x + y) % 0x1_0000_0000
            &&& op == 2 && rd != 15 ==> r.registers[rd] == y
            &&& op == 2 && rd == 15 ==> r.registers[15] == y & 0xFFFF_FFFE
            &&& op == 1 ==> r.registers == c.registers && r.flag_n() == (d >= 0x8000_0000)
                && r.flag_z() == (d == 0) && r.flag_c() == (x >= y) && r.flag_v() == ((x
                >= 0x8000_0000) != (y >= 0x8000_0000) && (d >= 0x8000_0000) != (x
                >= 0x8000_0000))
            &&& op == 3 ==> r.thumb() == (y & 1 == 1) && r.registers[15] == if y & 1 == 1 {
                y & 0xFFFF_FFFE
            } else {
                y & 0xFFFF_FFFC
            }
        }),
{
    let rd = ((instruction & 0x7) | (((instruction >> 7u32) & 1) << 3u32)) as int;
    lemma_fields(instruction);
    let op = (instruction >> 8u32) & 0x3;
    if op == 0 {
        crate::cpu::transfer_laws::lemma_wrap(x, y);
    } else if op == 1 {
        crate::cpu::transfer_laws::lemma_wrap(x, y);
        let d = super::arm::wsub(x, y);
        lemma_cpsr_bits(x, y, d);
        lemma_set_nz(c, d);
        lemma_c_then_v(c.set_nz(d), x >= y, true, super::arm::sub_overflow(x, y, d));
    } else if op == 3 {
        lemma_cpsr_bits(c.cpsr, 0, y);
    }
}

/// MRS and MSR. MRS copies the CPSR, or with the R bit (22) the current
/// mode's SPSR, into Rd. MSR writes the fields its mask selects (bit 19:
/// flags, bits 24-31; bit 16: control, bits 0-7) of the CPSR, or with the R
/// bit of the current mode's SPSR, from an immediate (bit 25, rotated as a
/// data processing immediate) or from Rm (`rm`, read as an operand),
/// keeping the other bits.
pub proof fn lemma_psr_transfer(c: CpuState, instruction: u32, rm: u32)
    requires
        c.wf(),
        rm == c.read_reg((instruction & 0xF) as int),
        instruction & 0x0FFF_FFF0 != 0x012F_FF10,
    ensures
        ({
            let r = c.special(instruction)->0;
            let bank = super::bank_of(c.cpsr & 0x1F) as int;
            let to_spsr = (instruction >> 22u32) & 1 == 1;
            let imm = instruction & 0xFF;
            let rot = (((instruction >> 8u32) & 0xF) * 2) as u32;
            let value = if (instruction >> 25u32) & 1 == 1 {
                if rot == 0 {
                    imm
                } else {
                    (imm >> rot) | (imm << ((32 - rot) as u32))
                }
            } else {
                rm
            };
            let mask = (if (instruction >> 19u32) & 1 == 1 {
                0xFF00_0000u32
            } else {
                0u32
            }) | (if (instruction >> 16u32) & 1 == 1 {
                0x0000_00FFu32
            } else {
                0u32
            });
            &&& instruction & 0x0FBF_0FFF == 0x010F_0000 ==> c.special(instruction) is Some
                && r.registers[((instruction >> 12u32) & 0xF) as int] == if to_spsr {
                c.spsr[bank]
            } else {
                c.cpsr
            }
            &&& instruction & 0x0DB0_F000 == 0x0120_F000 ==> {
                &&& c.special(instruction) is Some
                &&& !to_spsr ==> r.cpsr == (c.cpsr & !mask) | (value & mask)
                &&& to_spsr ==> r.spsr[bank] == (c.spsr[bank] & !mask) | (value & mask)
                    && r.cpsr == c.cpsr
            }
        }),
{
    assert(((instruction >> 12u32) & 0xF) < 16) by {
        crate::bits::lemma_and_le_u32(instruction >> 12u32, 0xF);
    }
    let field_mask = (instruction >> 16u32) & 0xF;
    assert(((field_mask & 0x8 != 0) == ((instruction >> 19u32) & 1 == 1)) && ((field_mask & 0x1
        != 0) == ((instruction >> 16u32) & 1 == 1)) && (instruction & 0x0FBF_0FFF == 0x010F_0000
        ==> instruction & 0x0DB0_F000 != 0x0120_F000)) by (bit_vector)
        requires
            field_mask == (instruction >> 16u32) & 0xF,
    ;
}

} // verus!
