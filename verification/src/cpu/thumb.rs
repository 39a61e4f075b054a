//! THUMB (16-bit) instructions, formats 1-19.
use vstd::prelude::*;
use crate::bus::{Bus, BusState};
use super::{Cpu, CpuState, barrel_shift, bit31, R_PC, R_LR, R_SP, CPSR_N, CPSR_Z, CPSR_C, CPSR_V, CPSR_T};
use super::arm::{wadd, wsub, mod32, sext8, sext16, popcount, add_overflow, sub_overflow, sign_extend_byte, sign_extend_halfword, count_bits};

verus! {

broadcast use crate::bits::group_and_bounds;

/// Result of a THUMB load of the kind selected by `kind` from `addr`:
/// 0 = word (rotated when unaligned), 1 = byte, 2 = halfword,
/// 3 = signed byte, 4 = signed halfword. `None` when the access would run
/// past the top of the address space.
pub open spec fn thumb_load(b: BusState, kind: int, addr: u32) -> Option<u32> {
    if kind == 0 {
        Some(CpuState::load_word_rotated(b, addr))
    } else if kind == 1 {
        Some(b.read_byte(addr) as u32)
    } else if kind == 3 {
        Some(sext8(b.read_byte(addr)))
    } else if addr > 0xFFFF_FFFE {
        None
    } else if kind == 2 {
        Some(b.read_halfword(addr) as u32)
    } else {
        Some(sext16(b.read_halfword(addr)))
    }
}

impl CpuState {
    /// N, Z and C from a result and carry.
    pub open spec fn set_nzc(self, result: u32, carry: bool) -> CpuState {
        self.set_flag(CPSR_N, bit31(result)).set_flag(CPSR_Z, result == 0).set_flag(CPSR_C, carry)
    }

    /// Format 1: LSL / LSR / ASR Rd, Rs, #offset (LSR and ASR #0 mean #32).
    pub open spec fn thumb_shift(self, instruction: u32) -> CpuState {
        let op = (instruction >> 11u32) & 0x3;
        let offset = (instruction >> 6u32) & 0x1F;
        let rs = ((instruction >> 3u32) & 0x7) as int;
        let rd = (instruction & 0x7) as int;
        let value = self.registers[rs];
        let amount: u32 = if offset == 0 {
            32
        } else {
            offset
        };
        let r = if op == 0 {
            barrel_shift(value, 0, offset, true, self.flag_c())
        } else if op == 1 {
            barrel_shift(value, 1, amount, true, self.flag_c())
        } else if op == 2 {
            barrel_shift(value, 2, amount, true, self.flag_c())
        } else {
            (value, self.flag_c())
        };
        self.set_reg(rd, r.0).set_nzc(r.0, r.1)
    }

    /// Format 2: ADD / SUB Rd, Rs, Rn or #imm3.
    pub open spec fn thumb_add_sub(self, instruction: u32) -> CpuState {
        let is_immediate = (instruction >> 10u32) & 1 == 1;
        let is_sub = (instruction >> 9u32) & 1 == 1;
        let rn_or_imm = (instruction >> 6u32) & 0x7;
        let rs = ((instruction >> 3u32) & 0x7) as int;
        let rd = (instruction & 0x7) as int;
        let op1 = self.registers[rs];
        let op2 = if is_immediate {
            rn_or_imm
        } else {
            self.registers[rn_or_imm as int]
        };
        let result = if is_sub {
            mod32(op1 - op2)
        } else {
            mod32(op1 + op2)
        };
        let s1 = self.set_reg(rd, result).set_nz(result);
        if is_sub {
            s1.set_flag(CPSR_C, op1 >= op2).set_flag(CPSR_V, sub_overflow(op1, op2, result))
        } else {
            s1.set_flag(CPSR_C, op1 + op2 > 0xFFFF_FFFF).set_flag(
                CPSR_V,
                add_overflow(op1, op2, result),
            )
        }
    }

    /// Format 3: MOV / CMP / ADD / SUB Rd, #imm8.
    pub open spec fn thumb_immediate(self, instruction: u32) -> CpuState {
        let op = (instruction >> 11u32) & 0x3;
        let rd = ((instruction >> 8u32) & 0x7) as int;
        let imm = instruction & 0xFF;
        let rd_val = self.registers[rd];
        let result = if op == 0 {
            imm
        } else if op == 2 {
            mod32(rd_val + imm)
        } else {
            mod32(rd_val - imm)
        };
        let s1 = if op != 1 {
            self.set_reg(rd, result)
        } else {
            self
        };
        let s2 = s1.set_nz(result);
        if op == 1 || op == 3 {
            s2.set_flag(CPSR_C, rd_val >= imm).set_flag(CPSR_V, sub_overflow(rd_val, imm, result))
        } else if op == 2 {
            s2.set_flag(CPSR_C, rd_val + imm > 0xFFFF_FFFF).set_flag(
                CPSR_V,
                add_overflow(rd_val, imm, result),
            )
        } else {
            s2
        }
    }

    /// Format 4 operation `op` on Rd value `a` and Rs value `b`: the state
    /// after its C/V updates, and its result.
    pub open spec fn thumb_alu_op(self, op: u32, a: u32, b: u32) -> (CpuState, u32) {
        let c: int = if self.flag_c() {
            1
        } else {
            0
        };
        if op == 0x0 || op == 0x8 {
            (self, a & b)
        } else if op == 0x1 {
            (self, a ^ b)
        } else if op == 0x2 || op == 0x3 || op == 0x4 || op == 0x7 {
            let st = if op == 0x2 {
                0u32
            } else if op == 0x3 {
                1u32
            } else if op == 0x4 {
                2u32
            } else {
                3u32
            };
            let r = barrel_shift(a, st, b & 0xFF, false, self.flag_c());
            (self.set_flag(CPSR_C, r.1), r.0)
        } else if op == 0x5 {
            let r = mod32(a + b + c);
            (
                self.set_flag(CPSR_C, a + b + c > 0xFFFF_FFFF).set_flag(
                    CPSR_V,
                    add_overflow(a, b, r),
                ),
                r,
            )
        } else if op == 0x6 {
            let r = mod32(a - b + c - 1);
            (self.set_flag(CPSR_C, a + c > b).set_flag(CPSR_V, sub_overflow(a, b, r)), r)
        } else if op == 0x9 {
            let r = mod32(0 - b);
            (self.set_flag(CPSR_C, b == 0).set_flag(CPSR_V, (b & r & 0x8000_0000) != 0), r)
        } else if op == 0xA {
            let r = mod32(a - b);
            (self.set_flag(CPSR_C, a >= b).set_flag(CPSR_V, sub_overflow(a, b, r)), r)
        } else if op == 0xB {
            let r = mod32(a + b);
            (
                self.set_flag(CPSR_C, a + b > 0xFFFF_FFFF).set_flag(CPSR_V, add_overflow(a, b, r)),
                r,
            )
        } else if op == 0xC {
            (self, a | b)
        } else if op == 0xD {
            (self.set_flag(CPSR_C, false), mod32(a * b))
        } else if op == 0xE {
            (self, a & !b)
        } else {
            (self, !b)
        }
    }

    /// Format 4: the sixteen ALU operations on low registers; TST, CMP and
    /// CMN only set flags.
    pub open spec fn thumb_alu(self, instruction: u32) -> CpuState {
        let op = (instruction >> 6u32) & 0xF;
        let rs = ((instruction >> 3u32) & 0x7) as int;
        let rd = (instruction & 0x7) as int;
        let r = self.thumb_alu_op(op, self.registers[rd], self.registers[rs]);
        let s1 = if op == 0x8 || op == 0xA || op == 0xB {
            r.0
        } else {
            r.0.set_reg(rd, r.1)
        };
        s1.set_nz(r.1)
    }

    /// Format 5: ADD / CMP / MOV with high registers, and BX. Writing the PC
    /// clears bit 0.
    pub open spec fn thumb_hi_reg(self, instruction: u32) -> CpuState {
        let op = (instruction >> 8u32) & 0x3;
        let h1 = (instruction >> 7u32) & 1;
        let h2 = (instruction >> 6u32) & 1;
        let rs = (((instruction >> 3u32) & 0x7) | (h2 << 3u32)) as int;
        let rd = ((instruction & 0x7) | (h1 << 3u32)) as int;
        let rs_val = self.read_reg(rs);
        let rd_val = self.read_reg(rd);
        if op == 0 {
            let result = wadd(rd_val, rs_val);
            if rd == 15 {
                self.set_reg(15, result & 0xFFFF_FFFE)
            } else {
                self.set_reg(rd, result)
            }
        } else if op == 1 {
            let result = wsub(rd_val, rs_val);
            self.set_nz(result).set_flag(CPSR_C, rd_val >= rs_val).set_flag(
                CPSR_V,
                sub_overflow(rd_val, rs_val, result),
            )
        } else if op == 2 {
            if rd == 15 {
                self.set_reg(15, rs_val & 0xFFFF_FFFE)
            } else {
                self.set_reg(rd, rs_val)
            }
        } else {
            self.branch_exchange(rs_val)
        }
    }

    /// A load into `rd` or store of `rd` of the given kind; for loads, kind
    /// as in [`thumb_load`]; for stores 0 = word (aligned down), 1 = byte,
    /// 2 = halfword.
    pub open spec fn thumb_transfer(
        self,
        b: BusState,
        is_load: bool,
        kind: int,
        addr: u32,
        rd: int,
        fuel: nat,
    ) -> Option<(CpuState, BusState)> {
        if is_load {
            match thumb_load(b, kind, addr) {
                None => None,
                Some(v) => Some((self.set_reg(rd, v), b)),
            }
        } else {
            let w = if kind == 0 {
                b.write_word_f(addr & 0xFFFF_FFFC, self.registers[rd], fuel)
            } else if kind == 1 {
                b.write_byte_f(addr, self.registers[rd] as u8, fuel)
            } else {
                b.write_halfword_f(addr, self.registers[rd] as u16, fuel)
            };
            match w {
                None => None,
                Some(b1) => Some((self, b1)),
            }
        }
    }

    /// Format 6: LDR Rd, [PC, #imm8 * 4] with the PC word-aligned.
    pub open spec fn thumb_pc_relative_load(self, b: BusState, instruction: u32) -> Option<CpuState> {
        let rd = ((instruction >> 8u32) & 0x7) as int;
        let offset = (instruction & 0xFF) << 2u32;
        let addr = wadd(self.read_reg(15) & 0xFFFF_FFFC, offset);
        if addr > 0xFFFF_FFFC {
            None
        } else {
            Some(self.set_reg(rd, b.read_word(addr)))
        }
    }

    /// Formats 7 and 8: loads and stores with a register offset.
    pub open spec fn thumb_load_store_reg(self, b: BusState, instruction: u32, fuel: nat) -> Option<
        (CpuState, BusState),
    > {
        let ro = ((instruction >> 6u32) & 0x7) as int;
        let rb = ((instruction >> 3u32) & 0x7) as int;
        let rd = (instruction & 0x7) as int;
        let addr = wadd(self.registers[rb], self.registers[ro]);
        if (instruction >> 9u32) & 1 == 1 {
            let op = (instruction >> 10u32) & 0x3;
            if op == 0 {
                self.thumb_transfer(b, false, 2, addr, rd, fuel)
            } else if op == 1 {
                self.thumb_transfer(b, true, 3, addr, rd, fuel)
            } else if op == 2 {
                self.thumb_transfer(b, true, 2, addr, rd, fuel)
            } else {
                self.thumb_transfer(b, true, 4, addr, rd, fuel)
            }
        } else {
            let is_load = (instruction >> 11u32) & 1 == 1;
            let is_byte = (instruction >> 10u32) & 1 == 1;
            self.thumb_transfer(
                b,
                is_load,
                if is_byte {
                    1
                } else {
                    0
                },
                addr,
                rd,
                fuel,
            )
        }
    }

    /// Format 9: LDR / STR / LDRB / STRB with a 5-bit immediate offset
    /// (scaled by 4 for words).
    pub open spec fn thumb_load_store_imm(self, b: BusState, instruction: u32, fuel: nat) -> Option<
        (CpuState, BusState),
    > {
        let is_load = (instruction >> 11u32) & 1 == 1;
        let is_byte = (instruction >> 12u32) & 1 == 1;
        let offset = (instruction >> 6u32) & 0x1F;
        let rb = ((instruction >> 3u32) & 0x7) as int;
        let rd = (instruction & 0x7) as int;
        let offset = if is_byte {
            offset
        } else {
            offset << 2u32
        };
        let addr = wadd(self.registers[rb], offset);
        self.thumb_transfer(
            b,
            is_load,
            if is_byte {
                1
            } else {
                0
            },
            addr,
            rd,
            fuel,
        )
    }

    /// Format 10: LDRH / STRH with a 5-bit immediate offset scaled by 2.
    pub open spec fn thumb_load_store_halfword(
        self,
        b: BusState,
        instruction: u32,
        fuel: nat,
    ) -> Option<(CpuState, BusState)> {
        let is_load = (instruction >> 11u32) & 1 == 1;
        let offset = ((instruction >> 6u32) & 0x1F) << 1u32;
        let rb = ((instruction >> 3u32) & 0x7) as int;
        let rd = (instruction & 0x7) as int;
        self.thumb_transfer(b, is_load, 2, wadd(self.registers[rb], offset), rd, fuel)
    }

    /// Format 11: LDR / STR Rd, [SP, #imm8 * 4].
    pub open spec fn thumb_sp_relative(self, b: BusState, instruction: u32, fuel: nat) -> Option<
        (CpuState, BusState),
    > {
        let is_load = (instruction >> 11u32) & 1 == 1;
        let rd = ((instruction >> 8u32) & 0x7) as int;
        let offset = (instruction & 0xFF) << 2u32;
        let addr = wadd(self.registers[13], offset);
        if addr > 0xFFFF_FFFC {
            None
        } else if is_load {
            Some((self.set_reg(rd, b.read_word(addr)), b))
        } else {
            match b.write_word_f(addr, self.registers[rd], fuel) {
                None => None,
                Some(b1) => Some((self, b1)),
            }
        }
    }

    /// Format 12: ADD Rd, PC (word-aligned) or SP, #imm8 * 4.
    pub open spec fn thumb_load_address(self, instruction: u32) -> CpuState {
        let is_sp = (instruction >> 11u32) & 1 == 1;
        let rd = ((instruction >> 8u32) & 0x7) as int;
        let offset = (instruction & 0xFF) << 2u32;
        let base = if is_sp {
            self.registers[13]
        } else {
            self.read_reg(15) & 0xFFFF_FFFC
        };
        self.set_reg(rd, wadd(base, offset))
    }

    /// Format 13: ADD SP, #+/-imm7 * 4.
    pub open spec fn thumb_sp_offset(self, instruction: u32) -> CpuState {
        let offset = (instruction & 0x7F) << 2u32;
        if (instruction >> 7u32) & 1 == 1 {
            self.set_reg(13, wsub(self.registers[13], offset))
        } else {
            self.set_reg(13, wadd(self.registers[13], offset))
        }
    }

    /// Low registers `i..8` of a multiple load/store, lowest at `addr`;
    /// yields the final state and address.
    pub open spec fn thumb_block(
        self,
        b: BusState,
        list: u32,
        is_load: bool,
        i: nat,
        addr: u32,
        fuel: nat,
    ) -> Option<(CpuState, BusState, u32)>
        decreases 8 - i,
    {
        if i >= 8 {
            Some((self, b, addr))
        } else if list & (1u32 << (i as u32)) != 0 {
            if addr > 0xFFFF_FFFC {
                None
            } else if is_load {
                self.set_reg(i as int, b.read_word(addr)).thumb_block(
                    b,
                    list,
                    is_load,
                    i + 1,
                    wadd(addr, 4),
                    fuel,
                )
            } else {
                match b.write_word_f(addr, self.registers[i as int], fuel) {
                    None => None,
                    Some(b1) => self.thumb_block(b1, list, is_load, i + 1, wadd(addr, 4), fuel),
                }
            }
        } else {
            self.thumb_block(b, list, is_load, i + 1, addr, fuel)
        }
    }

    /// POP {Rlist} and, when `load_pc`, the PC; a popped PC with bit 0
    /// clear returns to ARM state.
    pub open spec fn thumb_pop(self, b: BusState, list: u32, load_pc: bool, fuel: nat) -> Option<
        (CpuState, BusState),
    > {
        match self.thumb_block(b, list, true, 0, self.registers[13], fuel) {
            None => None,
            Some(r) => if load_pc {
                let addr = r.2;
                if addr > 0xFFFF_FFFC {
                    None
                } else {
                    let val = r.1.read_word(addr);
                    let c1 = if val & 1 != 0 {
                        r.0.set_reg(15, val & 0xFFFF_FFFE)
                    } else {
                        CpuState { cpsr: r.0.cpsr & !CPSR_T, ..r.0 }.set_reg(15, val & 0xFFFF_FFFC)
                    };
                    Some((c1.set_reg(13, wadd(addr, 4)), r.1))
                }
            } else {
                Some((r.0.set_reg(13, r.2), r.1))
            },
        }
    }

    /// PUSH {Rlist} and, when `store_lr`, LR (full descending stack).
    pub open spec fn thumb_push(self, b: BusState, list: u32, store_lr: bool, fuel: nat) -> Option<
        (CpuState, BusState),
    > {
        let count = popcount(list, 8) + if store_lr {
            1nat
        } else {
            0nat
        };
        let start = wsub(self.registers[13], (count * 4) as u32);
        let c0 = self.set_reg(13, start);
        match c0.thumb_block(b, list, false, 0, start, fuel) {
            None => None,
            Some(r) => if store_lr {
                match r.1.write_word_f(r.2, r.0.registers[14], fuel) {
                    None => None,
                    Some(b1) => Some((r.0, b1)),
                }
            } else {
                Some((r.0, r.1))
            },
        }
    }

    /// Format 14: PUSH {Rlist, LR} and POP {Rlist, PC}.
    pub open spec fn thumb_push_pop(self, b: BusState, instruction: u32, fuel: nat) -> Option<
        (CpuState, BusState),
    > {
        let lr_pc = (instruction >> 8u32) & 1 == 1;
        let list = instruction & 0xFF;
        if (instruction >> 11u32) & 1 == 1 {
            self.thumb_pop(b, list, lr_pc, fuel)
        } else {
            self.thumb_push(b, list, lr_pc, fuel)
        }
    }

    /// Format 15: LDMIA / STMIA Rb!, {Rlist}; the base is always written back.
    pub open spec fn thumb_multiple_load_store(
        self,
        b: BusState,
        instruction: u32,
        fuel: nat,
    ) -> Option<(CpuState, BusState)> {
        let is_load = (instruction >> 11u32) & 1 == 1;
        let rb = ((instruction >> 8u32) & 0x7) as int;
        let list = instruction & 0xFF;
        match self.thumb_block(b, list, is_load, 0, self.registers[rb], fuel) {
            None => None,
            Some(r) => Some((r.0.set_reg(rb, r.2), r.1)),
        }
    }

    /// Format 16: conditional branch by a signed 8-bit halfword offset.
    pub open spec fn thumb_conditional_branch(self, instruction: u32) -> CpuState {
        let cond = (instruction >> 8u32) & 0xF;
        if !self.condition_met(cond) {
            self
        } else {
            let off = instruction & 0xFF;
            let offset = (if off & 0x80 != 0 {
                off | 0xFFFF_FF00
            } else {
                off
            }) << 1u32;
            self.set_reg(15, wadd(self.read_reg(15), offset))
        }
    }

    /// Format 18: unconditional branch by a signed 11-bit halfword offset.
    pub open spec fn thumb_branch(self, instruction: u32) -> CpuState {
        let off = instruction & 0x7FF;
        let offset = (if off & 0x400 != 0 {
            off | 0xFFFF_F800
        } else {
            off
        }) << 1u32;
        self.set_reg(15, wadd(self.read_reg(15), offset))
    }

    /// Format 19: the two halves of BL. The first adds the sign-extended high
    /// offset to the PC into LR; the second jumps to LR plus the low offset
    /// and leaves the return address (with bit 0 set) in LR.
    pub open spec fn thumb_long_branch(self, instruction: u32) -> CpuState {
        let offset = instruction & 0x7FF;
        if (instruction >> 11u32) & 1 == 0 {
            let off = offset << 12u32;
            let off = if off & 0x0040_0000 != 0 {
                off | 0xFF80_0000
            } else {
                off
            };
            self.set_reg(14, wadd(self.read_reg(15), off))
        } else {
            let target = wadd(self.registers[14], offset << 1u32);
            self.set_reg(14, self.registers[15] | 1).set_reg(15, target & 0xFFFF_FFFE)
        }
    }
}

impl Cpu {
    fn set_nzc(&mut self, result: u32, carry: bool)
        ensures
            final(self)@ == old(self)@.set_nzc(result, carry),
    {
        self.set_flag(CPSR_N, (result >> 31u32) & 1 == 1);
        self.set_flag(CPSR_Z, result == 0);
        self.set_flag(CPSR_C, carry);
    }

    pub(crate) fn thumb_shift(&mut self, instruction: u32)
        ensures
            final(self)@ == old(self)@.thumb_shift(instruction),
    {
        let op = (instruction >> 11u32) & 0x3;
        let offset = (instruction >> 6u32) & 0x1F;
        let rs = ((instruction >> 3u32) & 0x7) as usize;
        let rd = (instruction & 0x7) as usize;
        let value = self.registers[rs];
        let amt = if offset == 0 {
            32
        } else {
            offset
        };
        let (result, carry) = if op == 0 {
            self.barrel_shift(value, 0, offset)
        } else if op == 1 {
            self.barrel_shift(value, 1, amt)
        } else if op == 2 {
            self.barrel_shift(value, 2, amt)
        } else {
            (value, self.flag_c())
        };
        self.registers[rd] = result;
        self.set_nzc(result, carry);
    }

    pub(crate) fn thumb_add_sub(&mut self, instruction: u32)
        ensures
            final(self)@ == old(self)@.thumb_add_sub(instruction),
    {
        let is_immediate = (instruction >> 10u32) & 1 == 1;
        let is_sub = (instruction >> 9u32) & 1 == 1;
        let rn_or_imm = (instruction >> 6u32) & 0x7;
        let rs = ((instruction >> 3u32) & 0x7) as usize;
        let rd = (instruction & 0x7) as usize;
        let op1 = self.registers[rs];
        let op2 = if is_immediate {
            rn_or_imm
        } else {
            self.registers[rn_or_imm as usize]
        };
        let result = if is_sub {
            op1.wrapping_sub(op2)
        } else {
            op1.wrapping_add(op2)
        };
        self.registers[rd] = result;
        self.set_nz(result);
        if is_sub {
            self.set_flag(CPSR_C, op1 >= op2);
            self.set_flag(CPSR_V, ((op1 ^ op2) & (op1 ^ result) & 0x8000_0000) != 0);
        } else {
            self.set_flag(CPSR_C, (op1 as u64 + op2 as u64) > 0xFFFF_FFFF);
            self.set_flag(CPSR_V, (!(op1 ^ op2) & (op1 ^ result) & 0x8000_0000) != 0);
        }
    }

    pub(crate) fn thumb_immediate(&mut self, instruction: u32)
        ensures
            final(self)@ == old(self)@.thumb_immediate(instruction),
    {
        let op = (instruction >> 11u32) & 0x3;
        let rd = ((instruction >> 8u32) & 0x7) as usize;
        let imm = instruction & 0xFF;
        let rd_val = self.registers[rd];
        let result = if op == 0 {
            imm
        } else if op == 2 {
            rd_val.wrapping_add(imm)
        } else {
            rd_val.wrapping_sub(imm)
        };
        if op != 1 {
            self.registers[rd] = result;
        }
        self.set_nz(result);
        if op == 1 || op == 3 {
            self.set_flag(CPSR_C, rd_val >= imm);
            self.set_flag(CPSR_V, ((rd_val ^ imm) & (rd_val ^ result) & 0x8000_0000) != 0);
        } else if op == 2 {
            self.set_flag(CPSR_C, (rd_val as u64 + imm as u64) > 0xFFFF_FFFF);
            self.set_flag(CPSR_V, (!(rd_val ^ imm) & (rd_val ^ result) & 0x8000_0000) != 0);
        }
    }

    /// The THUMB ALU operations that compute carry and overflow: ADC, SBC,
    /// NEG, CMP and CMN.
    #[verifier::spinoff_prover]
    fn thumb_alu_arith(&mut self, op: u32, a: u32, b: u32) -> (r: u32)
        requires
            op == 0x5 || op == 0x6 || op == 0x9 || op == 0xA || op == 0xB,
        ensures
            (final(self)@, r) == old(self)@.thumb_alu_op(op, a, b),
    {
        if op == 0x5 {
            let c: u32 = if self.flag_c() {
                1
            } else {
                0
            };
            let r = a.wrapping_add(b).wrapping_add(c);
            self.set_flag(CPSR_C, (a as u64 + b as u64 + c as u64) > 0xFFFF_FFFF);
            self.set_flag(CPSR_V, (!(a ^ b) & (a ^ r) & 0x8000_0000) != 0);
            r
        } else if op == 0x6 {
            let c: u32 = if self.flag_c() {
                1
            } else {
                0
            };
            let r = a.wrapping_sub(b).wrapping_add(c).wrapping_sub(1);
            self.set_flag(CPSR_C, (a as u64) >= (b as u64 + 1 - c as u64));
            self.set_flag(CPSR_V, ((a ^ b) & (a ^ r) & 0x8000_0000) != 0);
            r
        } else if op == 0x9 {
            let r = 0u32.wrapping_sub(b);
            self.set_flag(CPSR_C, b == 0);
            self.set_flag(CPSR_V, (b & r & 0x8000_0000) != 0);
            r
        } else if op == 0xA {
            let r = a.wrapping_sub(b);
            self.set_flag(CPSR_C, a >= b);
            self.set_flag(CPSR_V, ((a ^ b) & (a ^ r) & 0x8000_0000) != 0);
            r
        } else {
            let r = a.wrapping_add(b);
            self.set_flag(CPSR_C, (a as u64 + b as u64) > 0xFFFF_FFFF);
            self.set_flag(CPSR_V, (!(a ^ b) & (a ^ r) & 0x8000_0000) != 0);
            r
        }
    }

    #[verifier::spinoff_prover]
    fn thumb_alu_op(&mut self, op: u32, a: u32, b: u32) -> (r: u32)
        ensures
            (final(self)@, r) == old(self)@.thumb_alu_op(op, a, b),
    {
        if op == 0x0 || op == 0x8 {
            a & b
        } else if op == 0x1 {
            a ^ b
        } else if op == 0x2 || op == 0x3 || op == 0x4 || op == 0x7 {
            let st: u32 = if op == 0x2 {
                0
            } else if op == 0x3 {
                1
            } else if op == 0x4 {
                2
            } else {
                3
            };
            let (r, c) = self.barrel_shift_ext(a, st, b & 0xFF, false);
            self.set_flag(CPSR_C, c);
            r
        } else if op == 0x5 || op == 0x6 || op == 0x9 || op == 0xA || op == 0xB {
            self.thumb_alu_arith(op, a, b)
        } else if op == 0xC {
            a | b
        } else if op == 0xD {
            self.set_flag(CPSR_C, false);
            a.wrapping_mul(b)
        } else if op == 0xE {
            a & !b
        } else {
            !b
        }
    }

    pub(crate) fn thumb_alu(&mut self, instruction: u32)
        ensures
            final(self)@ == old(self)@.thumb_alu(instruction),
    {
        let op = (instruction >> 6u32) & 0xF;
        let rs = ((instruction >> 3u32) & 0x7) as usize;
        let rd = (instruction & 0x7) as usize;
        let a = self.registers[rd];
        let b = self.registers[rs];
        let result = self.thumb_alu_op(op, a, b);
        let is_test = op == 0x8 || op == 0xA || op == 0xB;
        if !is_test {
            self.registers[rd] = result;
        }
        self.set_nz(result);
    }

    pub(crate) fn thumb_hi_reg_bx(&mut self, instruction: u32)
        ensures
            final(self)@ == old(self)@.thumb_hi_reg(instruction),
    {
        let op = (instruction >> 8u32) & 0x3;
        let h1 = (instruction >> 7u32) & 1;
        let h2 = (instruction >> 6u32) & 1;
        let rs = (((instruction >> 3u32) & 0x7) | (h2 << 3u32)) as usize;
        let rd = ((instruction & 0x7) | (h1 << 3u32)) as usize;
        proof {
            assert(((instruction >> 3u32) & 0x7) | (h2 << 3u32) < 16 && (instruction & 0x7) | (h1
                << 3u32) < 16) by (bit_vector)
                requires
                    h1 == (instruction >> 7u32) & 1,
                    h2 == (instruction >> 6u32) & 1,
            ;
        }
        let rs_val = self.read_reg(rs);
        let rd_val = self.read_reg(rd);
        if op == 0 {
            let result = rd_val.wrapping_add(rs_val);
            if rd == R_PC {
                self.registers[R_PC] = result & 0xFFFF_FFFE;
            } else {
                self.registers[rd] = result;
            }
        } else if op == 1 {
            let result = rd_val.wrapping_sub(rs_val);
            self.set_nz(result);
            self.set_flag(CPSR_C, rd_val >= rs_val);
            self.set_flag(CPSR_V, ((rd_val ^ rs_val) & (rd_val ^ result) & 0x8000_0000) != 0);
        } else if op == 2 {
            if rd == R_PC {
                self.registers[R_PC] = rs_val & 0xFFFF_FFFE;
            } else {
                self.registers[rd] = rs_val;
            }
        } else {
            self.branch_exchange(rs_val);
        }
    }

    /// Load/store of `rd` of the given kind (see [`CpuState::thumb_transfer`]).
    fn thumb_transfer(
        &mut self,
        bus: &mut Bus,
        is_load: bool,
        kind: u32,
        addr: u32,
        rd: usize,
        Ghost(fuel): Ghost<nat>,
    )
        requires
            rd < 8,
            old(bus)@.wf(),
            old(self)@.thumb_transfer(old(bus)@, is_load, kind as int, addr, rd as int, fuel) is Some,
        ensures
            final(bus)@.wf(),
            Some((final(self)@, final(bus)@)) == old(self)@.thumb_transfer(
                old(bus)@,
                is_load,
                kind as int,
                addr,
                rd as int,
                fuel,
            ),
    {
        if is_load {
            let v = if kind == 0 {
                Self::load_word_rotated(bus, addr)
            } else if kind == 1 {
                bus.read_byte(addr) as u32
            } else if kind == 3 {
                sign_extend_byte(bus.read_byte(addr))
            } else if kind == 2 {
                bus.read_halfword(addr) as u32
            } else {
                sign_extend_halfword(bus.read_halfword(addr))
            };
            self.registers[rd] = v;
        } else if kind == 0 {
            bus.write_word_fuel(addr & 0xFFFF_FFFC, self.registers[rd], Ghost(fuel));
        } else if kind == 1 {
            bus.write_byte_fuel(addr, self.registers[rd] as u8, Ghost(fuel));
        } else {
            bus.write_halfword_fuel(addr, self.registers[rd] as u16, Ghost(fuel));
        }
    }

    pub(crate) fn thumb_pc_relative_load(&mut self, instruction: u32, bus: &Bus)
        requires
            bus@.wf(),
            old(self)@.thumb_pc_relative_load(bus@, instruction) is Some,
        ensures
            Some(final(self)@) == old(self)@.thumb_pc_relative_load(bus@, instruction),
    {
        let rd = ((instruction >> 8u32) & 0x7) as usize;
        let offset = (instruction & 0xFF) << 2u32;
        let base = self.read_reg(R_PC) & 0xFFFF_FFFC;
        self.registers[rd] = bus.read_word(base.wrapping_add(offset));
    }

    pub(crate) fn thumb_load_store_reg(&mut self, instruction: u32, bus: &mut Bus, Ghost(fuel): Ghost<nat>)
        requires
            old(bus)@.wf(),
            old(self)@.thumb_load_store_reg(old(bus)@, instruction, fuel) is Some,
        ensures
            final(bus)@.wf(),
            Some((final(self)@, final(bus)@)) == old(self)@.thumb_load_store_reg(
                old(bus)@,
                instruction,
                fuel,
            ),
    {
        let ro = ((instruction >> 6u32) & 0x7) as usize;
        let rb = ((instruction >> 3u32) & 0x7) as usize;
        let rd = (instruction & 0x7) as usize;
        let addr = self.registers[rb].wrapping_add(self.registers[ro]);
        if (instruction >> 9u32) & 1 == 1 {
            let op = (instruction >> 10u32) & 0x3;
            if op == 0 {
                self.thumb_transfer(bus, false, 2, addr, rd, Ghost(fuel));
            } else if op == 1 {
                self.thumb_transfer(bus, true, 3, addr, rd, Ghost(fuel));
            } else if op == 2 {
                self.thumb_transfer(bus, true, 2, addr, rd, Ghost(fuel));
            } else {
                self.thumb_transfer(bus, true, 4, addr, rd, Ghost(fuel));
            }
        } else {
            let is_load = (instruction >> 11u32) & 1 == 1;
            let is_byte = (instruction >> 10u32) & 1 == 1;
            self.thumb_transfer(
                bus,
                is_load,
                if is_byte {
                    1
                } else {
                    0
                },
                addr,
                rd,
                Ghost(fuel),
            );
        }
    }

    pub(crate) fn thumb_load_store_imm(&mut self, instruction: u32, bus: &mut Bus, Ghost(fuel): Ghost<nat>)
        requires
            old(bus)@.wf(),
            old(self)@.thumb_load_store_imm(old(bus)@, instruction, fuel) is Some,
        ensures
            final(bus)@.wf(),
            Some((final(self)@, final(bus)@)) == old(self)@.thumb_load_store_imm(
                old(bus)@,
                instruction,
                fuel,
            ),
    {
        let is_load = (instruction >> 11u32) & 1 == 1;
        let is_byte = (instruction >> 12u32) & 1 == 1;
        let offset = (instruction >> 6u32) & 0x1F;
        let rb = ((instruction >> 3u32) & 0x7) as usize;
        let rd = (instruction & 0x7) as usize;
        let offset = if is_byte {
            offset
        } else {
            offset << 2u32
        };
        let addr = self.registers[rb].wrapping_add(offset);
        self.thumb_transfer(
            bus,
            is_load,
            if is_byte {
                1
            } else {
                0
            },
            addr,
            rd,
            Ghost(fuel),
        );
    }

    pub(crate) fn thumb_load_store_halfword(
        &mut self,
        instruction: u32,
        bus: &mut Bus,
        Ghost(fuel): Ghost<nat>,
    )
        requires
            old(bus)@.wf(),
            old(self)@.thumb_load_store_halfword(old(bus)@, instruction, fuel) is Some,
        ensures
            final(bus)@.wf(),
            Some((final(self)@, final(bus)@)) == old(self)@.thumb_load_store_halfword(
                old(bus)@,
                instruction,
                fuel,
            ),
    {
        let is_load = (instruction >> 11u32) & 1 == 1;
        let offset = ((instruction >> 6u32) & 0x1F) << 1u32;
        let rb = ((instruction >> 3u32) & 0x7) as usize;
        let rd = (instruction & 0x7) as usize;
        let addr = self.registers[rb].wrapping_add(offset);
        self.thumb_transfer(bus, is_load, 2, addr, rd, Ghost(fuel));
    }

    pub(crate) fn thumb_sp_relative(&mut self, instruction: u32, bus: &mut Bus, Ghost(fuel): Ghost<nat>)
        requires
            old(bus)@.wf(),
            old(self)@.thumb_sp_relative(old(bus)@, instruction, fuel) is Some,
        ensures
            final(bus)@.wf(),
            Some((final(self)@, final(bus)@)) == old(self)@.thumb_sp_relative(
                old(bus)@,
                instruction,
                fuel,
            ),
    {
        let is_load = (instruction >> 11u32) & 1 == 1;
        let rd = ((instruction >> 8u32) & 0x7) as usize;
        let offset = (instruction & 0xFF) << 2u32;
        let addr = self.registers[R_SP].wrapping_add(offset);
        if is_load {
            self.registers[rd] = bus.read_word(addr);
        } else {
            bus.write_word_fuel(addr, self.registers[rd], Ghost(fuel));
        }
    }

    pub(crate) fn thumb_load_address(&mut self, instruction: u32)
        ensures
            final(self)@ == old(self)@.thumb_load_address(instruction),
    {
        let is_sp = (instruction >> 11u32) & 1 == 1;
        let rd = ((instruction >> 8u32) & 0x7) as usize;
        let offset = (instruction & 0xFF) << 2u32;
        let base = if is_sp {
            self.registers[R_SP]
        } else {
            self.read_reg(R_PC) & 0xFFFF_FFFC
        };
        self.registers[rd] = base.wrapping_add(offset);
    }

    pub(crate) fn thumb_sp_offset(&mut self, instruction: u32)
        ensures
            final(self)@ == old(self)@.thumb_sp_offset(instruction),
    {
        let offset = (instruction & 0x7F) << 2u32;
        if (instruction >> 7u32) & 1 == 1 {
            self.registers[R_SP] = self.registers[R_SP].wrapping_sub(offset);
        } else {
            self.registers[R_SP] = self.registers[R_SP].wrapping_add(offset);
        }
    }

    /// Transfers the listed low registers, lowest at `addr`; returns the
    /// address after the last one.
    fn thumb_block(
        &mut self,
        bus: &mut Bus,
        list: u32,
        is_load: bool,
        start: u32,
        Ghost(fuel): Ghost<nat>,
    ) -> (end: u32)
        requires
            old(bus)@.wf(),
            old(self)@.thumb_block(old(bus)@, list, is_load, 0, start, fuel) is Some,
        ensures
            final(bus)@.wf(),
            Some((final(self)@, final(bus)@, end)) == old(self)@.thumb_block(
                old(bus)@,
                list,
                is_load,
                0,
                start,
                fuel,
            ),
    {
        let ghost total = self@.thumb_block(bus@, list, is_load, 0, start, fuel);
        let mut addr = start;
        let mut i: u32 = 0;
        while i < 8
            invariant
                i <= 8,
                bus@.wf(),
                total is Some,
                self@.thumb_block(bus@, list, is_load, i as nat, addr, fuel) == total,
            decreases 8 - i,
        {
            if list & (1u32 << i) != 0 {
                if is_load {
                    self.registers[i as usize] = bus.read_word(addr);
                } else {
                    bus.write_word_fuel(addr, self.registers[i as usize], Ghost(fuel));
                }
                addr = addr.wrapping_add(4);
            }
            i = i + 1;
        }
        addr
    }

    fn thumb_pop(&mut self, bus: &mut Bus, reg_list: u32, load_pc: bool, Ghost(fuel): Ghost<nat>)
        requires
            old(bus)@.wf(),
            old(self)@.thumb_pop(old(bus)@, reg_list, load_pc, fuel) is Some,
        ensures
            final(bus)@.wf(),
            Some((final(self)@, final(bus)@)) == old(self)@.thumb_pop(
                old(bus)@,
                reg_list,
                load_pc,
                fuel,
            ),
    {
        let sp = self.registers[R_SP];
        let mut addr = self.thumb_block(bus, reg_list, true, sp, Ghost(fuel));
        if load_pc {
            let val = bus.read_word(addr);
            if val & 1 != 0 {
                self.registers[R_PC] = val & 0xFFFF_FFFE;
            } else {
                self.cpsr = self.cpsr & !CPSR_T;
                self.registers[R_PC] = val & 0xFFFF_FFFC;
            }
            addr = addr.wrapping_add(4);
        }
        self.registers[R_SP] = addr;
    }

    fn thumb_push(&mut self, bus: &mut Bus, reg_list: u32, store_lr: bool, Ghost(fuel): Ghost<nat>)
        requires
            old(bus)@.wf(),
            old(self)@.thumb_push(old(bus)@, reg_list, store_lr, fuel) is Some,
        ensures
            final(bus)@.wf(),
            Some((final(self)@, final(bus)@)) == old(self)@.thumb_push(
                old(bus)@,
                reg_list,
                store_lr,
                fuel,
            ),
    {
        let mut count = count_bits(reg_list, 8);
        if store_lr {
            count = count + 1;
        }
        let addr = self.registers[R_SP].wrapping_sub(count * 4);
        self.registers[R_SP] = addr;
        let end = self.thumb_block(bus, reg_list, false, addr, Ghost(fuel));
        if store_lr {
            bus.write_word_fuel(end, self.registers[R_LR], Ghost(fuel));
        }
    }

    pub(crate) fn thumb_push_pop(&mut self, instruction: u32, bus: &mut Bus, Ghost(fuel): Ghost<nat>)
        requires
            old(bus)@.wf(),
            old(self)@.thumb_push_pop(old(bus)@, instruction, fuel) is Some,
        ensures
            final(bus)@.wf(),
            Some((final(self)@, final(bus)@)) == old(self)@.thumb_push_pop(
                old(bus)@,
                instruction,
                fuel,
            ),
    {
        let is_pop = (instruction >> 11u32) & 1 == 1;
        let store_lr_load_pc = (instruction >> 8u32) & 1 == 1;
        let reg_list = instruction & 0xFF;
        if is_pop {
            self.thumb_pop(bus, reg_list, store_lr_load_pc, Ghost(fuel));
        } else {
            self.thumb_push(bus, reg_list, store_lr_load_pc, Ghost(fuel));
        }
    }

    pub(crate) fn thumb_multiple_load_store(
        &mut self,
        instruction: u32,
        bus: &mut Bus,
        Ghost(fuel): Ghost<nat>,
    )
        requires
            old(bus)@.wf(),
            old(self)@.thumb_multiple_load_store(old(bus)@, instruction, fuel) is Some,
        ensures
            final(bus)@.wf(),
            Some((final(self)@, final(bus)@)) == old(self)@.thumb_multiple_load_store(
                old(bus)@,
                instruction,
                fuel,
            ),
    {
        let is_load = (instruction >> 11u32) & 1 == 1;
        let rb = ((instruction >> 8u32) & 0x7) as usize;
        let reg_list = instruction & 0xFF;
        let base = self.registers[rb];
        let addr = self.thumb_block(bus, reg_list, is_load, base, Ghost(fuel));
        self.registers[rb] = addr;
    }

    pub(crate) fn thumb_conditional_branch(&mut self, instruction: u32)
        ensures
            final(self)@ == old(self)@.thumb_conditional_branch(instruction),
    {
        let cond = (instruction >> 8u32) & 0xF;
        if !self.condition_met(cond) {
            return ;
        }
        let mut offset = instruction & 0xFF;
        if offset & 0x80 != 0 {
            offset = offset | 0xFFFF_FF00;
        }
        let offset = offset << 1u32;
        let pc = self.read_reg(R_PC);
        self.registers[R_PC] = pc.wrapping_add(offset);
    }

    pub(crate) fn thumb_branch(&mut self, instruction: u32)
        ensures
            final(self)@ == old(self)@.thumb_branch(instruction),
    {
        let mut offset = instruction & 0x7FF;
        if offset & 0x400 != 0 {
            offset = offset | 0xFFFF_F800;
        }
        let offset = offset << 1u32;
        let pc = self.read_reg(R_PC);
        self.registers[R_PC] = pc.wrapping_add(offset);
    }

    pub(crate) fn thumb_long_branch(&mut self, instruction: u32)
        ensures
            final(self)@ == old(self)@.thumb_long_branch(instruction),
    {
        let h = (instruction >> 11u32) & 1;
        let offset = instruction & 0x7FF;
        if h == 0 {
            let mut off = offset << 12u32;
            if off & 0x0040_0000 != 0 {
                off = off | 0xFF80_0000;
            }
            let pc = self.read_reg(R_PC);
            self.registers[R_LR] = pc.wrapping_add(off);
        } else {
            let target = self.registers[R_LR].wrapping_add(offset << 1u32);
            self.registers[R_LR] = self.registers[R_PC] | 1;
            self.registers[R_PC] = target & 0xFFFF_FFFE;
        }
    }
}

} // verus!
