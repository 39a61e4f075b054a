//! ARM (32-bit) instructions: data processing, multiplies, status register
//! transfers, branches and the load/store families.
use vstd::prelude::*;
use crate::bus::{Bus, BusState};
use super::{Cpu, CpuState, barrel_shift, bank_of, mode_to_bank, ror32, rotate_right32, bit31, R_PC, R_LR, R_SP, CPSR_N, CPSR_Z, CPSR_C, CPSR_V, CPSR_T};

verus! {

broadcast use crate::bits::group_and_bounds;

pub open spec fn wadd(a: u32, b: u32) -> u32 {
    vstd::wrapping::u32_specs::wrapping_add(a, b)
}

pub open spec fn wsub(a: u32, b: u32) -> u32 {
    vstd::wrapping::u32_specs::wrapping_sub(a, b)
}

/// Reduction modulo 2^32.
pub open spec fn mod32(x: int) -> u32 {
    (x % 0x1_0000_0000) as u32
}

/// Sign extension of a byte.
pub open spec fn sext8(b: u8) -> u32 {
    if b & 0x80 != 0 {
        (b as u32) | 0xFFFF_FF00
    } else {
        b as u32
    }
}

/// Sign extension of a halfword.
pub open spec fn sext16(h: u16) -> u32 {
    if h & 0x8000 != 0 {
        (h as u32) | 0xFFFF_0000
    } else {
        h as u32
    }
}

/// Number of set bits among the low `n` bits of `x`.
pub open spec fn popcount(x: u32, n: nat) -> nat
    decreases n,
{
    if n == 0 {
        0
    } else {
        popcount(x, (n - 1) as nat) + if (x >> ((n - 1) as u32)) & 1 == 1 {
            1nat
        } else {
            0nat
        }
    }
}

/// Overflow of `a + b = r` (operands of equal sign, result of the other).
pub open spec fn add_overflow(a: u32, b: u32, r: u32) -> bool {
    (!(a ^ b) & (a ^ r) & 0x8000_0000) != 0
}

/// Overflow of `a - b = r` (operands of different sign, result differs from `a`).
pub open spec fn sub_overflow(a: u32, b: u32, r: u32) -> bool {
    ((a ^ b) & (a ^ r) & 0x8000_0000) != 0
}

/// Result of ALU opcode `opcode` on `op1` and `op2` with carry-in `c`.
pub open spec fn alu_result(opcode: u32, op1: u32, op2: u32, c: int) -> u32 {
    if opcode == 0x0 || opcode == 0x8 {
        op1 & op2
    } else if opcode == 0x1 || opcode == 0x9 {
        op1 ^ op2
    } else if opcode == 0x2 || opcode == 0xA {
        mod32(op1 - op2)
    } else if opcode == 0x3 {
        mod32(op2 - op1)
    } else if opcode == 0x4 || opcode == 0xB {
        mod32(op1 + op2)
    } else if opcode == 0x5 {
        mod32(op1 + op2 + c)
    } else if opcode == 0x6 {
        mod32(op1 - op2 + c - 1)
    } else if opcode == 0x7 {
        mod32(op2 - op1 + c - 1)
    } else if opcode == 0xC {
        op1 | op2
    } else if opcode == 0xD {
        op2
    } else if opcode == 0xE {
        op1 & !op2
    } else {
        !op2
    }
}

impl CpuState {
    /// C and V after an ALU operation with the S bit: arithmetic operations
    /// set carry as "no unsigned overflow/borrow" and V as signed overflow;
    /// logical operations take C from the shifter and keep V.
    pub open spec fn alu_flags(
        self,
        opcode: u32,
        op1: u32,
        op2: u32,
        result: u32,
        shift_carry: bool,
        c: int,
    ) -> CpuState {
        if opcode == 0x2 || opcode == 0xA {
            self.set_flag(CPSR_C, op1 >= op2).set_flag(CPSR_V, sub_overflow(op1, op2, result))
        } else if opcode == 0x3 {
            self.set_flag(CPSR_C, op2 >= op1).set_flag(CPSR_V, sub_overflow(op2, op1, result))
        } else if opcode == 0x4 || opcode == 0xB {
            self.set_flag(CPSR_C, op1 + op2 > 0xFFFF_FFFF).set_flag(
                CPSR_V,
                add_overflow(op1, op2, result),
            )
        } else if opcode == 0x5 {
            self.set_flag(CPSR_C, op1 + op2 + c > 0xFFFF_FFFF).set_flag(
                CPSR_V,
                add_overflow(op1, op2, result),
            )
        } else if opcode == 0x6 {
            self.set_flag(CPSR_C, op1 + c > op2).set_flag(CPSR_V, sub_overflow(op1, op2, result))
        } else if opcode == 0x7 {
            self.set_flag(CPSR_C, op2 + c > op1).set_flag(CPSR_V, sub_overflow(op2, op1, result))
        } else {
            self.set_flag(CPSR_C, shift_carry)
        }
    }

    /// A data processing instruction (AND ... MVN). The test opcodes (TST,
    /// TEQ, CMP, CMN) only set flags; with the S bit and Rd = PC, the
    /// current mode's SPSR is copied to CPSR instead of setting flags.
    pub open spec fn data_processing(self, instruction: u32, is_immediate: bool) -> CpuState {
        let opcode = (instruction >> 21u32) & 0xF;
        let set_flags = (instruction >> 20u32) & 1 == 1;
        let rn = ((instruction >> 16u32) & 0xF) as int;
        let rd = ((instruction >> 12u32) & 0xF) as int;
        let op2 = self.operand2(instruction, is_immediate).0;
        let shift_carry = self.operand2(instruction, is_immediate).1;
        let op1 = self.read_reg(rn);
        let c: int = if self.flag_c() {
            1
        } else {
            0
        };
        let result = alu_result(opcode, op1, op2, c);
        let is_test = 0x8 <= opcode <= 0xB;
        let s1 = if !is_test {
            self.set_reg(rd, result)
        } else {
            self
        };
        if set_flags && rd == 15 && !is_test {
            s1.write_cpsr(s1.spsr[bank_of(s1.cpsr & 0x1F) as int], 0xFFFF_FFFF)
        } else if set_flags {
            s1.set_flag(CPSR_Z, result == 0).set_flag(CPSR_N, bit31(result)).alu_flags(
                opcode,
                op1,
                op2,
                result,
                shift_carry,
                c,
            )
        } else {
            s1
        }
    }

    /// B / BL: a signed 24-bit word offset from PC + 8; BL saves the return
    /// address in LR.
    pub open spec fn branch(self, instruction: u32) -> CpuState {
        let link = (instruction >> 24u32) & 1 == 1;
        let off = instruction & 0x00FF_FFFF;
        let offset = (if off & 0x0080_0000 != 0 {
            off | 0xFF00_0000
        } else {
            off
        }) << 2u32;
        let s1 = if link {
            self.set_reg(14, self.registers[15])
        } else {
            self
        };
        s1.set_reg(15, wadd(s1.read_reg(15), offset))
    }

    /// Jump to `target`, entering THUMB state when bit 0 is set (halfword
    /// aligned) and ARM state otherwise (word aligned).
    pub open spec fn branch_exchange(self, target: u32) -> CpuState {
        if target & 1 != 0 {
            CpuState { cpsr: self.cpsr | CPSR_T, ..self }.set_reg(15, target & 0xFFFF_FFFE)
        } else {
            CpuState { cpsr: self.cpsr & !CPSR_T, ..self }.set_reg(15, target & 0xFFFF_FFFC)
        }
    }

    /// BX, MSR, MRS, MUL/MLA and UMULL/SMULL/UMLAL/SMLAL, which share the
    /// data processing encoding space; `None` when the instruction is none
    /// of them.
    pub open spec fn special(self, instruction: u32) -> Option<CpuState> {
        if instruction & 0x0FFF_FFF0 == 0x012F_FF10 {
            Some(self.branch_exchange(self.read_reg((instruction & 0xF) as int)))
        } else if instruction & 0x0DB0_F000 == 0x0120_F000 {
            let value = if (instruction >> 25u32) & 1 == 1 {
                ror32(instruction & 0xFF, (((instruction >> 8u32) & 0xF) * 2) as u32)
            } else {
                self.read_reg((instruction & 0xF) as int)
            };
            let field_mask = (instruction >> 16u32) & 0xF;
            let mask = (if field_mask & 0x8 != 0 {
                0xFF00_0000u32
            } else {
                0u32
            }) | (if field_mask & 0x1 != 0 {
                0x0000_00FFu32
            } else {
                0u32
            });
            if (instruction >> 22u32) & 1 == 1 {
                let bank = bank_of(self.cpsr & 0x1F) as int;
                Some(
                    CpuState {
                        spsr: self.spsr.update(bank, (self.spsr[bank] & !mask) | (value & mask)),
                        ..self
                    },
                )
            } else {
                Some(self.write_cpsr(value, mask))
            }
        } else if instruction & 0x0FBF_0FFF == 0x010F_0000 {
            let rd = ((instruction >> 12u32) & 0xF) as int;
            if (instruction >> 22u32) & 1 == 1 {
                Some(self.set_reg(rd, self.spsr[bank_of(self.cpsr & 0x1F) as int]))
            } else {
                Some(self.set_reg(rd, self.cpsr))
            }
        } else if instruction & 0x0FC0_00F0 == 0x0000_0090 {
            let accumulate = (instruction >> 21u32) & 1 == 1;
            let set_flags = (instruction >> 20u32) & 1 == 1;
            let rd = ((instruction >> 16u32) & 0xF) as int;
            let rn = ((instruction >> 12u32) & 0xF) as int;
            let rs = ((instruction >> 8u32) & 0xF) as int;
            let rm = (instruction & 0xF) as int;
            let product = self.registers[rm] as int * self.registers[rs] as int;
            let result = if accumulate {
                mod32(product + self.registers[rn])
            } else {
                mod32(product)
            };
            let s1 = self.set_reg(rd, result);
            if set_flags {
                Some(s1.set_flag(CPSR_Z, result == 0).set_flag(CPSR_N, bit31(result)))
            } else {
                Some(s1)
            }
        } else if instruction & 0x0F80_00F0 == 0x0080_0090 {
            let is_signed = (instruction >> 22u32) & 1 == 1;
            let accumulate = (instruction >> 21u32) & 1 == 1;
            let set_flags = (instruction >> 20u32) & 1 == 1;
            let rd_hi = ((instruction >> 16u32) & 0xF) as int;
            let rd_lo = ((instruction >> 12u32) & 0xF) as int;
            let rs = ((instruction >> 8u32) & 0xF) as int;
            let rm = (instruction & 0xF) as int;
            let a = self.registers[rm];
            let b = self.registers[rs];
            let product: int = if is_signed {
                crate::bits::sext32(a) * crate::bits::sext32(b)
            } else {
                a as int * b as int
            };
            let acc: int = if accumulate {
                self.registers[rd_hi] as int * 0x1_0000_0000 + self.registers[rd_lo] as int
            } else {
                0
            };
            let result = ((product + acc) % 0x1_0000_0000_0000_0000) as u64;
            let s1 = self.set_reg(rd_lo, result as u32).set_reg(rd_hi, (result >> 32u64) as u32);
            if set_flags {
                Some(s1.set_flag(CPSR_Z, result == 0).set_flag(CPSR_N, (result >> 63u64) & 1 == 1))
            } else {
                Some(s1)
            }
        } else {
            None
        }
    }
}

/// Result of an ALU opcode with carry-in `c`.
fn alu_compute(opcode: u32, op1: u32, op2: u32, c: u32) -> (r: u32)
    requires
        c <= 1,
    ensures
        r == alu_result(opcode, op1, op2, c as int),
{
    if opcode == 0x0 || opcode == 0x8 {
        op1 & op2
    } else if opcode == 0x1 || opcode == 0x9 {
        op1 ^ op2
    } else if opcode == 0x2 || opcode == 0xA {
        op1.wrapping_sub(op2)
    } else if opcode == 0x3 {
        op2.wrapping_sub(op1)
    } else if opcode == 0x4 || opcode == 0xB {
        op1.wrapping_add(op2)
    } else if opcode == 0x5 {
        op1.wrapping_add(op2).wrapping_add(c)
    } else if opcode == 0x6 {
        op1.wrapping_sub(op2).wrapping_add(c).wrapping_sub(1)
    } else if opcode == 0x7 {
        op2.wrapping_sub(op1).wrapping_add(c).wrapping_sub(1)
    } else if opcode == 0xC {
        op1 | op2
    } else if opcode == 0xD {
        op2
    } else if opcode == 0xE {
        op1 & !op2
    } else {
        !op2
    }
}

impl Cpu {
    /// Sets C and V after an ALU operation with the S bit.
    fn apply_alu_flags(
        &mut self,
        opcode: u32,
        op1: u32,
        op2: u32,
        result: u32,
        shift_carry: bool,
        c: u32,
    )
        requires
            c <= 1,
        ensures
            final(self)@ == old(self)@.alu_flags(opcode, op1, op2, result, shift_carry, c as int),
    {
        if opcode == 0x2 || opcode == 0xA {
            self.set_flag(CPSR_C, op1 >= op2);
            self.set_flag(CPSR_V, ((op1 ^ op2) & (op1 ^ result) & 0x8000_0000) != 0);
        } else if opcode == 0x3 {
            self.set_flag(CPSR_C, op2 >= op1);
            self.set_flag(CPSR_V, ((op2 ^ op1) & (op2 ^ result) & 0x8000_0000) != 0);
        } else if opcode == 0x4 || opcode == 0xB {
            let wide = op1 as u64 + op2 as u64;
            self.set_flag(CPSR_C, wide > 0xFFFF_FFFF);
            self.set_flag(CPSR_V, (!(op1 ^ op2) & (op1 ^ result) & 0x8000_0000) != 0);
        } else if opcode == 0x5 {
            let wide = op1 as u64 + op2 as u64 + c as u64;
            self.set_flag(CPSR_C, wide > 0xFFFF_FFFF);
            self.set_flag(CPSR_V, (!(op1 ^ op2) & (op1 ^ result) & 0x8000_0000) != 0);
        } else if opcode == 0x6 {
            let wide = op1 as u64 + (!op2) as u64 + c as u64;
            proof {
                crate::bits::lemma_not_u32(op2);
            }
            self.set_flag(CPSR_C, wide > 0xFFFF_FFFF);
            self.set_flag(CPSR_V, ((op1 ^ op2) & (op1 ^ result) & 0x8000_0000) != 0);
        } else if opcode == 0x7 {
            let wide = op2 as u64 + (!op1) as u64 + c as u64;
            proof {
                crate::bits::lemma_not_u32(op1);
            }
            self.set_flag(CPSR_C, wide > 0xFFFF_FFFF);
            self.set_flag(CPSR_V, ((op2 ^ op1) & (op2 ^ result) & 0x8000_0000) != 0);
        } else {
            self.set_flag(CPSR_C, shift_carry);
        }
    }

    /// Executes a data processing instruction.
    pub(crate) fn execute_data_processing(&mut self, instruction: u32, is_immediate: u32)
        ensures
            final(self)@ == old(self)@.data_processing(instruction, is_immediate == 1),
    {
        let opcode = (instruction >> 21u32) & 0xF;
        let set_flags = (instruction >> 20u32) & 1 == 1;
        let rn = ((instruction >> 16u32) & 0xF) as usize;
        let rd = ((instruction >> 12u32) & 0xF) as usize;
        let (op2, shift_carry) = self.decode_operand2(instruction, is_immediate == 1);
        let op1 = self.read_reg(rn);
        let c: u32 = if self.flag_c() {
            1
        } else {
            0
        };
        let result = alu_compute(opcode, op1, op2, c);
        let is_test_op = opcode == 0x8 || opcode == 0x9 || opcode == 0xA || opcode == 0xB;
        if !is_test_op {
            self.registers[rd] = result;
        }
        if set_flags && rd == R_PC && !is_test_op {
            let bank = mode_to_bank(self.cpsr & 0x1F);
            let saved = self.spsr[bank];
            self.write_cpsr(saved, 0xFFFF_FFFF);
        } else if set_flags {
            self.set_flag(CPSR_Z, result == 0);
            self.set_flag(CPSR_N, (result >> 31u32) & 1 == 1);
            self.apply_alu_flags(opcode, op1, op2, result, shift_carry, c);
        }
    }

    /// Executes B / BL.
    pub(crate) fn execute_branch(&mut self, instruction: u32)
        ensures
            final(self)@ == old(self)@.branch(instruction),
    {
        let link = (instruction >> 24u32) & 1 == 1;
        let mut offset = instruction & 0x00FF_FFFF;
        if offset & 0x0080_0000 != 0 {
            offset = offset | 0xFF00_0000;
        }
        let offset = offset << 2u32;
        if link {
            self.registers[R_LR] = self.registers[R_PC];
        }
        let pc = self.read_reg(R_PC);
        self.registers[R_PC] = pc.wrapping_add(offset);
    }

    /// Jumps to `target`, selecting THUMB or ARM state from bit 0.
    pub(crate) fn branch_exchange(&mut self, target: u32)
        ensures
            final(self)@ == old(self)@.branch_exchange(target),
    {
        if target & 1 != 0 {
            self.cpsr = self.cpsr | CPSR_T;
            self.registers[R_PC] = target & 0xFFFF_FFFE;
        } else {
            self.cpsr = self.cpsr & !CPSR_T;
            self.registers[R_PC] = target & 0xFFFF_FFFC;
        }
    }

    /// Executes BX, MSR, MRS or a multiply; returns whether the instruction
    /// was one of them.
    pub(crate) fn try_special_arm(&mut self, instruction: u32) -> (handled: bool)
        ensures
            handled == old(self)@.special(instruction) is Some,
            handled ==> final(self)@ == old(self)@.special(instruction)->0,
            !handled ==> final(self)@ == old(self)@,
    {
        if instruction & 0x0FFF_FFF0 == 0x012F_FF10 {
            let rm = (instruction & 0xF) as usize;
            let addr = self.read_reg(rm);
            self.branch_exchange(addr);
            return true;
        }
        if instruction & 0x0DB0_F000 == 0x0120_F000 {
            let use_immediate = (instruction >> 25u32) & 1 == 1;
            let value = if use_immediate {
                let imm = instruction & 0xFF;
                let rotate = (instruction >> 8u32) & 0xF;
                rotate_right32(imm, rotate * 2)
            } else {
                let rm = (instruction & 0xF) as usize;
                self.read_reg(rm)
            };
            let field_mask = (instruction >> 16u32) & 0xF;
            let mask = (if field_mask & 0x8 != 0 {
                0xFF00_0000u32
            } else {
                0u32
            }) | (if field_mask & 0x1 != 0 {
                0x0000_00FFu32
            } else {
                0u32
            });
            let is_spsr = (instruction >> 22u32) & 1 == 1;
            if is_spsr {
                let bank = mode_to_bank(self.cpsr & 0x1F);
                self.spsr[bank] = (self.spsr[bank] & !mask) | (value & mask);
            } else {
                self.write_cpsr(value, mask);
            }
            return true;
        }
        if instruction & 0x0FBF_0FFF == 0x010F_0000 {
            let rd = ((instruction >> 12u32) & 0xF) as usize;
            let is_spsr = (instruction >> 22u32) & 1 == 1;
            if is_spsr {
                let bank = mode_to_bank(self.cpsr & 0x1F);
                self.registers[rd] = self.spsr[bank];
            } else {
                self.registers[rd] = self.cpsr;
            }
            return true;
        }
        if instruction & 0x0FC0_00F0 == 0x0000_0090 {
            let accumulate = (instruction >> 21u32) & 1 == 1;
            let set_flags = (instruction >> 20u32) & 1 == 1;
            let rd = ((instruction >> 16u32) & 0xF) as usize;
            let rn = ((instruction >> 12u32) & 0xF) as usize;
            let rs = ((instruction >> 8u32) & 0xF) as usize;
            let rm = (instruction & 0xF) as usize;
            let product = self.registers[rm].wrapping_mul(self.registers[rs]);
            let result = if accumulate {
                product.wrapping_add(self.registers[rn])
            } else {
                product
            };
            proof {
                crate::bits::lemma_mod32_add(
                    self.registers@[rm as int] as int * self.registers@[rs as int] as int,
                    self.registers@[rn as int] as int,
                );
            }
            self.registers[rd] = result;
            if set_flags {
                self.set_flag(CPSR_Z, result == 0);
                self.set_flag(CPSR_N, (result >> 31u32) & 1 == 1);
            }
            return true;
        }
        if instruction & 0x0F80_00F0 == 0x0080_0090 {
            let is_signed = (instruction >> 22u32) & 1 == 1;
            let accumulate = (instruction >> 21u32) & 1 == 1;
            let set_flags = (instruction >> 20u32) & 1 == 1;
            let rd_hi = ((instruction >> 16u32) & 0xF) as usize;
            let rd_lo = ((instruction >> 12u32) & 0xF) as usize;
            let rs = ((instruction >> 8u32) & 0xF) as usize;
            let rm = (instruction & 0xF) as usize;
            let a = self.registers[rm];
            let b = self.registers[rs];
            let (wa, wb) = if is_signed {
                (crate::bits::sign_extend_64(a), crate::bits::sign_extend_64(b))
            } else {
                (a as u64, b as u64)
            };
            let product = wa.wrapping_mul(wb);
            let acc = ((self.registers[rd_hi] as u64) << 32u64) | (self.registers[rd_lo] as u64);
            let result = if accumulate {
                product.wrapping_add(acc)
            } else {
                product
            };
            proof {
                let x: int = if is_signed {
                    crate::bits::sext32(a)
                } else {
                    a as int
                };
                let y: int = if is_signed {
                    crate::bits::sext32(b)
                } else {
                    b as int
                };
                crate::bits::lemma_mul_mod64(x, y);
                crate::bits::lemma_pack64(self.registers@[rd_hi as int], self.registers@[rd_lo as int]);
                crate::bits::lemma_mod64_add(x * y, acc as int);
            }
            self.registers[rd_lo] = result as u32;
            self.registers[rd_hi] = (result >> 32u64) as u32;
            if set_flags {
                self.set_flag(CPSR_Z, result == 0);
                self.set_flag(CPSR_N, (result >> 63u64) & 1 == 1);
            }
            return true;
        }
        false
    }
}

/// Lowest address of a block transfer of `count` registers from `base`:
/// increment after, increment before, decrement after, decrement before.
/// Undefined for an empty list decrementing after (the count underflows).
pub open spec fn block_start(base: u32, count: nat, pre: bool, up: bool) -> Option<u32> {
    if !pre && up {
        Some(base)
    } else if pre && up {
        Some(wadd(base, 4))
    } else if !pre && !up {
        if count == 0 {
            None
        } else {
            Some(wsub(base, ((count - 1) * 4) as u32))
        }
    } else {
        Some(wsub(base, (count * 4) as u32))
    }
}

impl CpuState {
    /// The value an unaligned word load yields: the aligned word rotated so
    /// that the addressed byte is lowest.
    pub open spec fn load_word_rotated(b: BusState, addr: u32) -> u32 {
        ror32(b.read_word(addr & 0xFFFF_FFFC), ((addr & 3) * 8) as u32)
    }

    /// LDR / STR / LDRB / STRB with immediate or shifted-register offset,
    /// pre- or post-indexed. Post-indexing always writes the base back,
    /// pre-indexing when W is set; a load into the base register wins over
    /// write-back. Stores of words align the address down.
    pub open spec fn single_transfer(self, b: BusState, instruction: u32, fuel: nat) -> Option<
        (CpuState, BusState),
    > {
        let is_load = (instruction >> 20u32) & 1 == 1;
        let write_back = (instruction >> 21u32) & 1 == 1;
        let is_byte = (instruction >> 22u32) & 1 == 1;
        let add_offset = (instruction >> 23u32) & 1 == 1;
        let pre_index = (instruction >> 24u32) & 1 == 1;
        let is_immediate = (instruction >> 25u32) & 1 == 0;
        let rn = ((instruction >> 16u32) & 0xF) as int;
        let rd = ((instruction >> 12u32) & 0xF) as int;
        let offset = if is_immediate {
            instruction & 0xFFF
        } else {
            barrel_shift(
                self.read_reg((instruction & 0xF) as int),
                (instruction >> 5u32) & 0x3,
                (instruction >> 7u32) & 0x1F,
                true,
                self.flag_c(),
            ).0
        };
        let base = self.read_reg(rn);
        let addr = if add_offset {
            wadd(base, offset)
        } else {
            wsub(base, offset)
        };
        let ea = if pre_index {
            addr
        } else {
            base
        };
        let r = if is_load {
            let v = if is_byte {
                b.read_byte(ea) as u32
            } else {
                Self::load_word_rotated(b, ea)
            };
            Some((self.set_reg(rd, v), b))
        } else {
            let w = if is_byte {
                b.write_byte_f(ea, self.registers[rd] as u8, fuel)
            } else {
                b.write_word_f(ea & 0xFFFF_FFFC, self.registers[rd], fuel)
            };
            match w {
                None => None,
                Some(b1) => Some((self, b1)),
            }
        };
        match r {
            None => None,
            Some(r) => if (!pre_index || write_back) && !(is_load && rd == rn) {
                Some((r.0.set_reg(rn, addr), r.1))
            } else {
                Some(r)
            },
        }
    }

    /// LDRH / STRH / LDRSB / LDRSH. An odd LDRH address loads the aligned
    /// halfword rotated by 8; an odd LDRSH address loads a signed byte;
    /// stores align the address down.
    pub open spec fn halfword_transfer(self, b: BusState, instruction: u32, fuel: nat) -> Option<
        (CpuState, BusState),
    > {
        let pre = (instruction >> 24u32) & 1 == 1;
        let up = (instruction >> 23u32) & 1 == 1;
        let is_imm = (instruction >> 22u32) & 1 == 1;
        let write_back = (instruction >> 21u32) & 1 == 1;
        let is_load = (instruction >> 20u32) & 1 == 1;
        let rn = ((instruction >> 16u32) & 0xF) as int;
        let rd = ((instruction >> 12u32) & 0xF) as int;
        let sh = (instruction >> 5u32) & 0x3;
        let offset = if is_imm {
            ((instruction >> 4u32) & 0xF0) | (instruction & 0xF)
        } else {
            self.registers[(instruction & 0xF) as int]
        };
        let base = self.read_reg(rn);
        let addr = if up {
            wadd(base, offset)
        } else {
            wsub(base, offset)
        };
        let ea = if pre {
            addr
        } else {
            base
        };
        let r = if is_load {
            let v = if sh == 1 {
                ror32(
                    b.read_halfword(ea & 0xFFFF_FFFE) as u32,
                    if ea & 1 != 0 {
                        8
                    } else {
                        0
                    },
                )
            } else if sh == 2 {
                sext8(b.read_byte(ea))
            } else if sh == 3 {
                if ea & 1 != 0 {
                    sext8(b.read_byte(ea))
                } else {
                    sext16(b.read_halfword(ea & 0xFFFF_FFFE))
                }
            } else {
                0
            };
            Some((self.set_reg(rd, v), b))
        } else {
            match b.write_halfword_f(ea & 0xFFFF_FFFE, self.registers[rd] as u16, fuel) {
                None => None,
                Some(b1) => Some((self, b1)),
            }
        };
        match r {
            None => None,
            Some(r) => if (write_back || !pre) && !(is_load && rd == rn) {
                Some((r.0.set_reg(rn, addr), r.1))
            } else {
                Some(r)
            },
        }
    }

    /// Registers `i..16` of a block transfer, lowest register at `addr`.
    pub open spec fn block_loop(
        self,
        b: BusState,
        list: u32,
        is_load: bool,
        i: nat,
        addr: u32,
        fuel: nat,
    ) -> Option<(CpuState, BusState)>
        decreases 16 - i,
    {
        if i >= 16 {
            Some((self, b))
        } else if list & (1u32 << (i as u32)) != 0 {
            if addr > 0xFFFF_FFFC {
                None
            } else if is_load {
                self.set_reg(i as int, b.read_word(addr)).block_loop(
                    b,
                    list,
                    is_load,
                    i + 1,
                    wadd(addr, 4),
                    fuel,
                )
            } else {
                match b.write_word_f(addr, self.registers[i as int], fuel) {
                    None => None,
                    Some(b1) => self.block_loop(b1, list, is_load, i + 1, wadd(addr, 4), fuel),
                }
            }
        } else {
            self.block_loop(b, list, is_load, i + 1, addr, fuel)
        }
    }

    /// LDM / STM in all four addressing modes. Registers go low-to-high from
    /// the lowest address; with the S bit and no PC in the list the User
    /// bank is transferred; write-back is skipped when a load includes the
    /// base; loading the PC branches (with exchange), copying SPSR to CPSR
    /// first when S is set.
    pub open spec fn block_transfer(self, b: BusState, instruction: u32, fuel: nat) -> Option<
        (CpuState, BusState),
    > {
        let pre = (instruction >> 24u32) & 1 == 1;
        let up = (instruction >> 23u32) & 1 == 1;
        let s_bit = (instruction >> 22u32) & 1 == 1;
        let write_back = (instruction >> 21u32) & 1 == 1;
        let is_load = (instruction >> 20u32) & 1 == 1;
        let rn = ((instruction >> 16u32) & 0xF) as int;
        let list = instruction & 0xFFFF;
        let has_pc = list & 0x8000 != 0;
        let base = self.registers[rn];
        let count = popcount(list, 16);
        match block_start(base, count, pre, up) {
            None => None,
            Some(start) => {
                let mode = self.cpsr & 0x1F;
                let swap = s_bit && !has_pc && mode != 0x10 && mode != 0x1F;
                let c1 = if swap {
                    self.switch_mode(mode, 0x10)
                } else {
                    self
                };
                match c1.block_loop(b, list, is_load, 0, start, fuel) {
                    None => None,
                    Some(r) => {
                        let c3 = if swap {
                            r.0.switch_mode(0x10, mode)
                        } else {
                            r.0
                        };
                        let rn_in_list = list & (1u32 << (rn as u32)) != 0;
                        let c4 = if write_back && !(is_load && rn_in_list) {
                            c3.set_reg(
                                rn,
                                if up {
                                    wadd(base, (count * 4) as u32)
                                } else {
                                    wsub(base, (count * 4) as u32)
                                },
                            )
                        } else {
                            c3
                        };
                        if is_load && has_pc {
                            let new_pc = c4.registers[15];
                            let c5 = if s_bit {
                                c4.write_cpsr(c4.spsr[bank_of(c4.cpsr & 0x1F) as int], 0xFFFF_FFFF)
                            } else {
                                c4
                            };
                            Some((c5.branch_exchange(new_pc), r.1))
                        } else {
                            Some((c4, r.1))
                        }
                    },
                }
            },
        }
    }
}

pub fn sign_extend_byte(b: u8) -> (r: u32)
    ensures
        r == sext8(b),
{
    if b & 0x80 != 0 {
        (b as u32) | 0xFFFF_FF00
    } else {
        b as u32
    }
}

pub fn sign_extend_halfword(h: u16) -> (r: u32)
    ensures
        r == sext16(h),
{
    if h & 0x8000 != 0 {
        (h as u32) | 0xFFFF_0000
    } else {
        h as u32
    }
}

/// Number of set bits among the low `n` bits of `x`.
pub fn count_bits(x: u32, n: u32) -> (r: u32)
    requires
        n <= 32,
    ensures
        r == popcount(x, n as nat),
        r <= n,
{
    let mut r: u32 = 0;
    let mut i: u32 = 0;
    while i < n
        invariant
            i <= n,
            n <= 32,
            r == popcount(x, i as nat),
            r <= i,
        decreases n - i,
    {
        if (x >> i) & 1 == 1 {
            r = r + 1;
        }
        i = i + 1;
    }
    r
}

impl Cpu {
    /// Loads a word from a possibly unaligned address (aligned word, rotated).
    pub(crate) fn load_word_rotated(bus: &Bus, addr: u32) -> (v: u32)
        requires
            bus@.wf(),
        ensures
            v == CpuState::load_word_rotated(bus@, addr),
    {
        let misalign = addr & 3;
        let aligned = addr & 0xFFFF_FFFC;
        let val = bus.read_word(aligned);
        rotate_right32(val, misalign * 8)
    }

    pub(crate) fn execute_single_transfer(
        &mut self,
        instruction: u32,
        bus: &mut Bus,
        Ghost(fuel): Ghost<nat>,
    )
        requires
            old(bus)@.wf(),
            old(self)@.single_transfer(old(bus)@, instruction, fuel) is Some,
        ensures
            final(bus)@.wf(),
            Some((final(self)@, final(bus)@)) == old(self)@.single_transfer(
                old(bus)@,
                instruction,
                fuel,
            ),
    {
        let is_load = (instruction >> 20u32) & 1 == 1;
        let write_back = (instruction >> 21u32) & 1 == 1;
        let is_byte = (instruction >> 22u32) & 1 == 1;
        let add_offset = (instruction >> 23u32) & 1 == 1;
        let pre_index = (instruction >> 24u32) & 1 == 1;
        let is_immediate = (instruction >> 25u32) & 1 == 0;
        let rn = ((instruction >> 16u32) & 0xF) as usize;
        let rd = ((instruction >> 12u32) & 0xF) as usize;
        let offset = if is_immediate {
            instruction & 0xFFF
        } else {
            let rm = (instruction & 0xF) as usize;
            let shift_type = (instruction >> 5u32) & 0x3;
            let shift_amount = (instruction >> 7u32) & 0x1F;
            let (shifted, _) = self.barrel_shift(self.read_reg(rm), shift_type, shift_amount);
            shifted
        };
        let base = self.read_reg(rn);
        let addr = if add_offset {
            base.wrapping_add(offset)
        } else {
            base.wrapping_sub(offset)
        };
        let effective_addr = if pre_index {
            addr
        } else {
            base
        };
        if is_load {
            self.registers[rd] = if is_byte {
                bus.read_byte(effective_addr) as u32
            } else {
                Self::load_word_rotated(bus, effective_addr)
            };
        } else {
            if is_byte {
                bus.write_byte_fuel(effective_addr, self.registers[rd] as u8, Ghost(fuel));
            } else {
                bus.write_word_fuel(effective_addr & 0xFFFF_FFFC, self.registers[rd], Ghost(fuel));
            }
        }
        if (!pre_index || write_back) && !(is_load && rd == rn) {
            self.registers[rn] = addr;
        }
    }

    pub(crate) fn execute_halfword_transfer(
        &mut self,
        instruction: u32,
        bus: &mut Bus,
        Ghost(fuel): Ghost<nat>,
    )
        requires
            old(bus)@.wf(),
            old(self)@.halfword_transfer(old(bus)@, instruction, fuel) is Some,
        ensures
            final(bus)@.wf(),
            Some((final(self)@, final(bus)@)) == old(self)@.halfword_transfer(
                old(bus)@,
                instruction,
                fuel,
            ),
    {
        let pre = (instruction >> 24u32) & 1 == 1;
        let up = (instruction >> 23u32) & 1 == 1;
        let is_imm = (instruction >> 22u32) & 1 == 1;
        let write_back = (instruction >> 21u32) & 1 == 1;
        let is_load = (instruction >> 20u32) & 1 == 1;
        let rn = ((instruction >> 16u32) & 0xF) as usize;
        let rd = ((instruction >> 12u32) & 0xF) as usize;
        let sh = (instruction >> 5u32) & 0x3;
        let offset = if is_imm {
            ((instruction >> 4u32) & 0xF0) | (instruction & 0xF)
        } else {
            let rm = (instruction & 0xF) as usize;
            self.registers[rm]
        };
        let base = self.read_reg(rn);
        let addr = if up {
            base.wrapping_add(offset)
        } else {
            base.wrapping_sub(offset)
        };
        let effective = if pre {
            addr
        } else {
            base
        };
        proof {
            assert(effective & 1 == 0 ==> effective & 0xFFFF_FFFE == effective) by (bit_vector);
        }
        if is_load {
            self.registers[rd] = if sh == 1 {
                if effective & 1 != 0 {
                    let aligned = effective & 0xFFFF_FFFE;
                    let val = bus.read_halfword(aligned) as u32;
                    rotate_right32(val, 8)
                } else {
                    bus.read_halfword(effective) as u32
                }
            } else if sh == 2 {
                sign_extend_byte(bus.read_byte(effective))
            } else if sh == 3 {
                if effective & 1 != 0 {
                    sign_extend_byte(bus.read_byte(effective))
                } else {
                    sign_extend_halfword(bus.read_halfword(effective))
                }
            } else {
                0
            };
        } else {
            bus.write_halfword_fuel(effective & 0xFFFF_FFFE, self.registers[rd] as u16, Ghost(fuel));
        }
        if (write_back || !pre) && !(is_load && rd == rn) {
            self.registers[rn] = addr;
        }
    }

    pub(crate) fn execute_block_transfer(
        &mut self,
        instruction: u32,
        bus: &mut Bus,
        Ghost(fuel): Ghost<nat>,
    )
        requires
            old(bus)@.wf(),
            old(self)@.block_transfer(old(bus)@, instruction, fuel) is Some,
        ensures
            final(bus)@.wf(),
            Some((final(self)@, final(bus)@)) == old(self)@.block_transfer(
                old(bus)@,
                instruction,
                fuel,
            ),
    {
        let pre = (instruction >> 24u32) & 1 == 1;
        let up = (instruction >> 23u32) & 1 == 1;
        let s_bit = (instruction >> 22u32) & 1 == 1;
        let write_back = (instruction >> 21u32) & 1 == 1;
        let is_load = (instruction >> 20u32) & 1 == 1;
        let rn = ((instruction >> 16u32) & 0xF) as usize;
        let reg_list = instruction & 0xFFFF;
        let has_pc = reg_list & 0x8000 != 0;
        let base = self.registers[rn];
        let count = count_bits(reg_list, 16);
        let start_addr = if !pre && up {
            base
        } else if pre && up {
            base.wrapping_add(4)
        } else if !pre && !up {
            base.wrapping_sub((count - 1) * 4)
        } else {
            base.wrapping_sub(count * 4)
        };
        let current_mode = self.cpsr & 0x1F;
        let use_user_bank = s_bit && !has_pc;
        let swap = use_user_bank && current_mode != 0x10 && current_mode != 0x1F;
        if swap {
            self.switch_mode(current_mode, 0x10);
        }
        let ghost total = self@.block_loop(bus@, reg_list, is_load, 0, start_addr, fuel);
        let mut addr = start_addr;
        let mut i: u32 = 0;
        while i < 16
            invariant
                i <= 16,
                bus@.wf(),
                total is Some,
                self@.block_loop(bus@, reg_list, is_load, i as nat, addr, fuel) == total,
            decreases 16 - i,
        {
            if reg_list & (1u32 << i) != 0 {
                if is_load {
                    self.registers[i as usize] = bus.read_word(addr);
                } else {
                    bus.write_word_fuel(addr, self.registers[i as usize], Ghost(fuel));
                }
                addr = addr.wrapping_add(4);
            }
            i = i + 1;
        }
        if swap {
            self.switch_mode(0x10, current_mode);
        }
        let rn_in_list = reg_list & (1u32 << (rn as u32)) != 0;
        if write_back && !(is_load && rn_in_list) {
            let new_base = if up {
                base.wrapping_add(count * 4)
            } else {
                base.wrapping_sub(count * 4)
            };
            self.registers[rn] = new_base;
        }
        if is_load && has_pc {
            let new_pc = self.registers[R_PC];
            if s_bit {
                let bank = mode_to_bank(self.cpsr & 0x1F);
                let saved = self.spsr[bank];
                self.write_cpsr(saved, 0xFFFF_FFFF);
            }
            self.branch_exchange(new_pc);
        }
    }
}

} // verus!
