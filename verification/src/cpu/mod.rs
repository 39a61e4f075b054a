//! The ARM7TDMI processor: registers, status flags, banked registers, the
//! barrel shifter, condition codes and the fetch-decode-execute step.
//!
//! Every instruction is given by a spec function over [`CpuState`] (and
//! [`BusState`] where it touches memory). An instruction is undefined when one
//! of its address computations would pass `u32::MAX`, and an instruction that
//! accesses memory may start DMA chains; those spec functions are
//! `Option`-valued and carry the bus's DMA nesting budget, with `None` meaning
//! the step is undefined.
use vstd::prelude::*;
use crate::bus::{Bus, BusState};

pub mod alu_laws;
pub mod arm;
pub mod bios_laws;
pub mod budget;
pub mod laws;
pub mod thumb;
pub mod transfer_laws;
pub mod system;

verus! {

broadcast use crate::bits::group_and_bounds;

pub const R_SP: usize = 13;
pub const R_LR: usize = 14;
pub const R_PC: usize = 15;

pub const CPSR_N: u32 = 0x8000_0000;
pub const CPSR_Z: u32 = 0x4000_0000;
pub const CPSR_C: u32 = 0x2000_0000;
pub const CPSR_V: u32 = 0x1000_0000;
pub const CPSR_T: u32 = 0x0000_0020;

/// Register bank indices: User/System share bank 0.
pub const BANK_USR: usize = 0;
pub const BANK_FIQ: usize = 1;
pub const BANK_IRQ: usize = 2;
pub const BANK_SVC: usize = 3;
pub const BANK_ABT: usize = 4;
pub const BANK_UND: usize = 5;
pub const NUM_BANKS: usize = 6;

pub struct Cpu {
    /// R0-R15; R15 is the program counter.
    pub registers: [u32; 16],
    /// Current program status register.
    pub cpsr: u32,
    pub banked_sp: [u32; 6],
    pub banked_lr: [u32; 6],
    pub banked_fiq_r8_r12: [u32; 5],
    pub banked_usr_r8_r12: [u32; 5],
    /// Saved program status register of each bank.
    pub spsr: [u32; 6],
}

/// The mathematical value of a [`Cpu`].
#[verifier::ext_equal]
pub struct CpuState {
    pub registers: Seq<u32>,
    pub cpsr: u32,
    pub banked_sp: Seq<u32>,
    pub banked_lr: Seq<u32>,
    pub banked_fiq: Seq<u32>,
    pub banked_usr: Seq<u32>,
    pub spsr: Seq<u32>,
}

impl View for Cpu {
    type V = CpuState;

    open spec fn view(&self) -> CpuState {
        CpuState {
            registers: self.registers@,
            cpsr: self.cpsr,
            banked_sp: self.banked_sp@,
            banked_lr: self.banked_lr@,
            banked_fiq: self.banked_fiq_r8_r12@,
            banked_usr: self.banked_usr_r8_r12@,
            spsr: self.spsr@,
        }
    }
}

/// Register bank of a mode (CPSR bits 4-0); unknown modes use the User bank.
pub open spec fn bank_of(mode_bits: u32) -> usize {
    let m = mode_bits & 0x1F;
    if m == 0x11 {
        BANK_FIQ
    } else if m == 0x12 {
        BANK_IRQ
    } else if m == 0x13 {
        BANK_SVC
    } else if m == 0x17 {
        BANK_ABT
    } else if m == 0x1B {
        BANK_UND
    } else {
        BANK_USR
    }
}

fn mode_to_bank(mode_bits: u32) -> (b: usize)
    ensures
        b == bank_of(mode_bits),
        b < NUM_BANKS,
{
    let m = mode_bits & 0x1F;
    if m == 0x11 {
        BANK_FIQ
    } else if m == 0x12 {
        BANK_IRQ
    } else if m == 0x13 {
        BANK_SVC
    } else if m == 0x17 {
        BANK_ABT
    } else if m == 0x1B {
        BANK_UND
    } else {
        BANK_USR
    }
}

/// Rotation right of a 32-bit value by `n` (0..=31) bits.
pub open spec fn ror32(v: u32, n: u32) -> u32 {
    if n == 0 {
        v
    } else {
        (v >> n) | (v << ((32 - n) as u32))
    }
}

pub fn rotate_right32(v: u32, n: u32) -> (r: u32)
    requires
        n < 32,
    ensures
        r == ror32(v, n),
{
    if n == 0 {
        v
    } else {
        (v >> n) | (v << (32 - n))
    }
}

/// Arithmetic shift right by `n` (0..=31) bits: copies of the sign bit shift in.
pub open spec fn asr32(v: u32, n: u32) -> u32 {
    if v & 0x8000_0000 != 0 {
        !((!v) >> n)
    } else {
        v >> n
    }
}

pub open spec fn bit31(v: u32) -> bool {
    (v >> 31u32) & 1 != 0
}

/// The ARM barrel shifter: `(result, carry_out)` of shifting `value` by
/// `amount` with shift type 0=LSL, 1=LSR, 2=ASR, 3=ROR. For an immediate
/// shift, an amount of 0 encodes LSR #32, ASR #32 and RRX (rotate right by one
/// through carry); for a register shift it means no shift.
pub open spec fn barrel_shift(
    value: u32,
    shift_type: u32,
    amount: u32,
    is_immediate_shift: bool,
    carry_in: bool,
) -> (u32, bool) {
    if amount == 0 {
        if !is_immediate_shift || shift_type == 0 {
            (value, carry_in)
        } else if shift_type == 1 {
            (0, bit31(value))
        } else if shift_type == 2 {
            (
                if bit31(value) {
                    0xFFFF_FFFF
                } else {
                    0
                },
                bit31(value),
            )
        } else {
            (
                (value >> 1u32) | (if carry_in {
                    0x8000_0000u32
                } else {
                    0u32
                }),
                value & 1 != 0,
            )
        }
    } else if shift_type == 0 {
        if amount >= 32 {
            (0, amount == 32 && value & 1 != 0)
        } else {
            (value << amount, (value >> ((32 - amount) as u32)) & 1 != 0)
        }
    } else if shift_type == 1 {
        if amount >= 32 {
            (0, amount == 32 && bit31(value))
        } else {
            (value >> amount, (value >> ((amount - 1) as u32)) & 1 != 0)
        }
    } else if shift_type == 2 {
        if amount >= 32 {
            (
                if bit31(value) {
                    0xFFFF_FFFF
                } else {
                    0
                },
                bit31(value),
            )
        } else {
            (asr32(value, amount), (value >> ((amount - 1) as u32)) & 1 != 0)
        }
    } else {
        let a = amount % 32;
        if a == 0 {
            (value, bit31(value))
        } else {
            (ror32(value, a), (value >> ((a - 1) as u32)) & 1 != 0)
        }
    }
}

impl CpuState {
    pub open spec fn wf(self) -> bool {
        &&& self.registers.len() == 16
        &&& self.banked_sp.len() == 6
        &&& self.banked_lr.len() == 6
        &&& self.banked_fiq.len() == 5
        &&& self.banked_usr.len() == 5
        &&& self.spsr.len() == 6
    }

    /// The state of a freshly reset processor: all registers zero except the
    /// PC (ROM entry point) and the System/User stack pointer (top of IWRAM).
    pub open spec fn initial() -> CpuState {
        CpuState {
            registers: Seq::new(16, |i: int| 0u32).update(15, 0x0800_0000).update(13, 0x0300_7F00),
            cpsr: 0,
            banked_sp: Seq::new(6, |i: int| 0u32).update(0, 0x0300_7F00),
            banked_lr: Seq::new(6, |i: int| 0u32),
            banked_fiq: Seq::new(5, |i: int| 0u32),
            banked_usr: Seq::new(5, |i: int| 0u32),
            spsr: Seq::new(6, |i: int| 0u32),
        }
    }

    pub open spec fn set_reg(self, r: int, v: u32) -> CpuState {
        CpuState { registers: self.registers.update(r, v), ..self }
    }

    pub open spec fn pc(self) -> u32 {
        self.registers[15]
    }

    pub open spec fn flag_n(self) -> bool {
        self.cpsr & CPSR_N != 0
    }

    pub open spec fn flag_z(self) -> bool {
        self.cpsr & CPSR_Z != 0
    }

    pub open spec fn flag_c(self) -> bool {
        self.cpsr & CPSR_C != 0
    }

    pub open spec fn flag_v(self) -> bool {
        self.cpsr & CPSR_V != 0
    }

    pub open spec fn thumb(self) -> bool {
        self.cpsr & CPSR_T != 0
    }

    /// CPSR with the bits of `mask` set (`value`) or cleared.
    pub open spec fn set_flag(self, mask: u32, value: bool) -> CpuState {
        CpuState {
            cpsr: if value {
                self.cpsr | mask
            } else {
                self.cpsr & !mask
            },
            ..self
        }
    }

    /// N and Z from a result.
    pub open spec fn set_nz(self, result: u32) -> CpuState {
        self.set_flag(CPSR_N, bit31(result)).set_flag(CPSR_Z, result == 0)
    }

    /// Register `r` as an operand: the PC reads two instructions ahead.
    pub open spec fn read_reg(self, r: int) -> u32 {
        if r == 15 {
            if self.thumb() {
                vstd::wrapping::u32_specs::wrapping_add(self.registers[15], 2)
            } else {
                vstd::wrapping::u32_specs::wrapping_add(self.registers[15], 4)
            }
        } else {
            self.registers[r]
        }
    }

    /// The register file after a mode change: SP and LR (and, to or from
    /// FIQ, R8-R12) are saved to the old mode's bank and loaded from the new
    /// mode's bank. Modes sharing a bank change nothing.
    pub open spec fn switch_mode(self, old_mode: u32, new_mode: u32) -> CpuState {
        let ob = bank_of(old_mode) as int;
        let nb = bank_of(new_mode) as int;
        if ob == nb {
            self
        } else {
            let sp = self.banked_sp.update(ob, self.registers[13]);
            let lr = self.banked_lr.update(ob, self.registers[14]);
            let hi = self.registers.subrange(8, 13);
            let lo = self.registers.subrange(0, 8);
            let top = self.registers.subrange(13, 16);
            let regs = if ob == BANK_FIQ {
                lo + self.banked_usr + top
            } else if nb == BANK_FIQ {
                lo + self.banked_fiq + top
            } else {
                self.registers
            };
            let fiq = if ob == BANK_FIQ {
                hi
            } else {
                self.banked_fiq
            };
            let usr = if ob != BANK_FIQ && nb == BANK_FIQ {
                hi
            } else {
                self.banked_usr
            };
            CpuState {
                registers: regs.update(13, sp[nb]).update(14, lr[nb]),
                banked_sp: sp,
                banked_lr: lr,
                banked_fiq: fiq,
                banked_usr: usr,
                ..self
            }
        }
    }

    /// CPSR write of the bits in `mask`, switching register banks when the
    /// mode bits change.
    pub open spec fn write_cpsr(self, value: u32, mask: u32) -> CpuState {
        let old_mode = self.cpsr & 0x1F;
        let c1 = CpuState { cpsr: (self.cpsr & !mask) | (value & mask), ..self };
        let new_mode = c1.cpsr & 0x1F;
        if old_mode != new_mode {
            c1.switch_mode(old_mode, new_mode)
        } else {
            c1
        }
    }

    /// Whether condition code `cond` holds under the current flags.
    pub open spec fn condition_met(self, cond: u32) -> bool {
        let n = self.flag_n();
        let z = self.flag_z();
        let c = self.flag_c();
        let v = self.flag_v();
        if cond == 0x0 {
            z
        } else if cond == 0x1 {
            !z
        } else if cond == 0x2 {
            c
        } else if cond == 0x3 {
            !c
        } else if cond == 0x4 {
            n
        } else if cond == 0x5 {
            !n
        } else if cond == 0x6 {
            v
        } else if cond == 0x7 {
            !v
        } else if cond == 0x8 {
            c && !z
        } else if cond == 0x9 {
            !c || z
        } else if cond == 0xA {
            n == v
        } else if cond == 0xB {
            n != v
        } else if cond == 0xC {
            !z && n == v
        } else if cond == 0xD {
            z || n != v
        } else {
            true
        }
    }

    /// Operand 2 of a data processing instruction and the shifter carry:
    /// an 8-bit immediate rotated right by twice the 4-bit rotate field, or a
    /// register shifted by an immediate or by a register's bottom byte. With a
    /// register-specified shift, the PC as Rm reads one word further ahead.
    pub open spec fn operand2(self, instruction: u32, is_immediate: bool) -> (u32, bool) {
        if is_immediate {
            let imm = instruction & 0xFF;
            let rotate = (instruction >> 8u32) & 0xF;
            if rotate == 0 {
                (imm, self.flag_c())
            } else {
                let result = ror32(imm, (rotate * 2) as u32);
                (result, bit31(result))
            }
        } else {
            let rm = (instruction & 0xF) as int;
            let shift_type = (instruction >> 5u32) & 0x3;
            let shift_by_reg = (instruction >> 4u32) & 1 == 1;
            let rm_val = if shift_by_reg && rm == 15 {
                vstd::wrapping::u32_specs::wrapping_add(self.read_reg(rm), 4)
            } else {
                self.read_reg(rm)
            };
            if shift_by_reg {
                let rs = ((instruction >> 8u32) & 0xF) as int;
                barrel_shift(rm_val, shift_type, self.read_reg(rs) & 0xFF, false, self.flag_c())
            } else {
                barrel_shift(rm_val, shift_type, (instruction >> 7u32) & 0x1F, true, self.flag_c())
            }
        }
    }

    /// Extra fetch cycles for an instruction at `pc`: none for BIOS and IWRAM,
    /// 2 for EWRAM, and for ROM 2 in THUMB state or 4 in ARM state.
    pub open spec fn fetch_waitstates(self, pc: u32) -> u32 {
        let region = pc >> 24u32;
        if region == 0x02 {
            2
        } else if 0x08 <= region <= 0x0D {
            if self.thumb() {
                2
            } else {
                4
            }
        } else {
            0
        }
    }
}

impl Cpu {
    /// A processor in its reset state.
    pub fn new() -> (c: Self)
        ensures
            c@ == CpuState::initial(),
            c@.wf(),
    {
        let mut cpu = Cpu {
            registers: [0; 16],
            cpsr: 0,
            banked_sp: [0; 6],
            banked_lr: [0; 6],
            banked_fiq_r8_r12: [0; 5],
            banked_usr_r8_r12: [0; 5],
            spsr: [0; 6],
        };
        cpu.registers[R_PC] = 0x0800_0000;
        cpu.registers[R_SP] = 0x0300_7F00;
        cpu.banked_sp[BANK_USR] = 0x0300_7F00;
        assert(cpu@ =~= CpuState::initial());
        cpu
    }

    /// Sets the banked SP of the mode `mode_bits`.
    pub fn set_mode_sp(&mut self, mode_bits: u32, sp: u32)
        ensures
            final(self)@ == (CpuState {
                banked_sp: old(self)@.banked_sp.update(bank_of(mode_bits) as int, sp),
                ..old(self)@
            }),
    {
        let bank = mode_to_bank(mode_bits);
        self.banked_sp[bank] = sp;
    }

    /// Puts the processor in the state the BIOS leaves it in after boot, for
    /// running a ROM without executing the BIOS: System mode, PC and LR at
    /// the ROM entry point, SP at 0x03007F00, and the Supervisor and IRQ
    /// stacks at 0x03007FE0 and 0x03007FA0.
    pub fn skip_bios(&mut self)
        ensures
            final(self)@ == (CpuState {
                registers: old(self)@.registers.update(15, 0x0800_0000).update(
                    13,
                    0x0300_7F00,
                ).update(14, 0x0800_0000),
                cpsr: 0x1F,
                banked_sp: old(self)@.banked_sp.update(BANK_SVC as int, 0x0300_7FE0).update(
                    BANK_IRQ as int,
                    0x0300_7FA0,
                ),
                ..old(self)@
            }),
    {
        self.registers[R_PC] = 0x0800_0000;
        self.cpsr = 0x1F;
        self.registers[R_SP] = 0x0300_7F00;
        self.registers[R_LR] = 0x0800_0000;
        assert(0x13u32 & 0x1F == 0x13 && 0x12u32 & 0x1F == 0x12) by (bit_vector);
        self.set_mode_sp(0x13, 0x0300_7FE0);
        self.set_mode_sp(0x12, 0x0300_7FA0);
        assert(self@.registers =~= old(self)@.registers.update(15, 0x0800_0000).update(
            13,
            0x0300_7F00,
        ).update(14, 0x0800_0000));
    }

    fn switch_mode(&mut self, old_mode: u32, new_mode: u32)
        ensures
            final(self)@ == old(self)@.switch_mode(old_mode, new_mode),
    {
        let old_bank = mode_to_bank(old_mode);
        let new_bank = mode_to_bank(new_mode);
        if old_bank == new_bank {
            return ;
        }
        self.banked_sp[old_bank] = self.registers[R_SP];
        self.banked_lr[old_bank] = self.registers[R_LR];
        let ghost c0 = self@;
        if old_bank == BANK_FIQ {
            let mut i: usize = 0;
            while i < 5
                invariant
                    i <= 5,
                    self@ == (CpuState {
                        registers: self@.registers,
                        banked_fiq: self@.banked_fiq,
                        ..c0
                    }),
                    self@.registers.len() == 16,
                    self@.banked_fiq.len() == 5,
                    forall|j: int| 0 <= j < i ==> self@.banked_fiq[j] == c0.registers[8 + j],
                    forall|j: int|
                        0 <= j < i ==> self@.registers[8 + j] == c0.banked_usr[j],
                    forall|j: int| i <= j < 5 ==> self@.banked_fiq[j] == c0.banked_fiq[j],
                    forall|j: int|
                        0 <= j < 16 && !(8 <= j < 8 + i) ==> self@.registers[j] == c0.registers[j],
                decreases 5 - i,
            {
                self.banked_fiq_r8_r12[i] = self.registers[8 + i];
                self.registers[8 + i] = self.banked_usr_r8_r12[i];
                i = i + 1;
            }
        } else if new_bank == BANK_FIQ {
            let mut i: usize = 0;
            while i < 5
                invariant
                    i <= 5,
                    self@ == (CpuState {
                        registers: self@.registers,
                        banked_usr: self@.banked_usr,
                        ..c0
                    }),
                    self@.registers.len() == 16,
                    self@.banked_usr.len() == 5,
                    forall|j: int| 0 <= j < i ==> self@.banked_usr[j] == c0.registers[8 + j],
                    forall|j: int|
                        0 <= j < i ==> self@.registers[8 + j] == c0.banked_fiq[j],
                    forall|j: int| i <= j < 5 ==> self@.banked_usr[j] == c0.banked_usr[j],
                    forall|j: int|
                        0 <= j < 16 && !(8 <= j < 8 + i) ==> self@.registers[j] == c0.registers[j],
                decreases 5 - i,
            {
                self.banked_usr_r8_r12[i] = self.registers[8 + i];
                self.registers[8 + i] = self.banked_fiq_r8_r12[i];
                i = i + 1;
            }
        }
        let ghost c1 = self@;
        self.registers[R_SP] = self.banked_sp[new_bank];
        self.registers[R_LR] = self.banked_lr[new_bank];
        proof {
            let s = old(self)@.switch_mode(old_mode, new_mode);
            let ob = old_bank as int;
            if old_bank == BANK_FIQ {
                assert(c1.registers =~= c0.registers.subrange(0, 8) + c0.banked_usr
                    + c0.registers.subrange(13, 16));
                assert(c1.banked_fiq =~= c0.registers.subrange(8, 13));
            } else if new_bank == BANK_FIQ {
                assert(c1.registers =~= c0.registers.subrange(0, 8) + c0.banked_fiq
                    + c0.registers.subrange(13, 16));
                assert(c1.banked_usr =~= c0.registers.subrange(8, 13));
            }
            assert(self@ =~= s);
        }
    }

    /// Writes the bits of `mask` of CPSR, switching banks on a mode change.
    fn write_cpsr(&mut self, value: u32, mask: u32)
        ensures
            final(self)@ == old(self)@.write_cpsr(value, mask),
    {
        let old_mode = self.cpsr & 0x1F;
        self.cpsr = (self.cpsr & !mask) | (value & mask);
        let new_mode = self.cpsr & 0x1F;
        if old_mode != new_mode {
            self.switch_mode(old_mode, new_mode);
        }
    }

    /// Is the Zero flag set?
    pub fn flag_z(&self) -> (b: bool)
        ensures
            b == self@.flag_z(),
    {
        (self.cpsr & CPSR_Z) != 0
    }

    /// Is the Negative flag set?
    pub fn flag_n(&self) -> (b: bool)
        ensures
            b == self@.flag_n(),
    {
        (self.cpsr & CPSR_N) != 0
    }

    /// Is the Carry flag set?
    pub fn flag_c(&self) -> (b: bool)
        ensures
            b == self@.flag_c(),
    {
        (self.cpsr & CPSR_C) != 0
    }

    /// Is the Overflow flag set?
    pub fn flag_v(&self) -> (b: bool)
        ensures
            b == self@.flag_v(),
    {
        (self.cpsr & CPSR_V) != 0
    }

    /// Sets (`value`) or clears the CPSR bits of `mask`.
    pub fn set_flag(&mut self, mask: u32, value: bool)
        ensures
            final(self)@ == old(self)@.set_flag(mask, value),
    {
        if value {
            self.cpsr = self.cpsr | mask;
        } else {
            self.cpsr = self.cpsr & !mask;
        }
    }

    fn set_nz(&mut self, result: u32)
        ensures
            final(self)@ == old(self)@.set_nz(result),
    {
        self.set_flag(CPSR_N, (result >> 31u32) & 1 != 0);
        self.set_flag(CPSR_Z, result == 0);
    }

    /// Is the processor in THUMB state (T bit)?
    pub fn in_thumb_mode(&self) -> (b: bool)
        ensures
            b == self@.thumb(),
    {
        (self.cpsr & CPSR_T) != 0
    }

    fn barrel_shift_ext(&self, value: u32, shift_type: u32, amount: u32, is_immediate_shift: bool) -> (r: (
        u32,
        bool,
    ))
        requires
            shift_type < 4,
        ensures
            r == barrel_shift(value, shift_type, amount, is_immediate_shift, self@.flag_c()),
    {
        let carry_in = self.flag_c();
        if amount == 0 {
            if !is_immediate_shift || shift_type == 0 {
                return (value, carry_in);
            }
            return if shift_type == 1 {
                (0, (value >> 31u32) & 1 != 0)
            } else if shift_type == 2 {
                let bit = (value >> 31u32) & 1 != 0;
                (if bit {
                    0xFFFF_FFFFu32
                } else {
                    0u32
                }, bit)
            } else {
                let carry = value & 1 != 0;
                let result = (value >> 1u32) | (if carry_in {
                    0x8000_0000u32
                } else {
                    0u32
                });
                (result, carry)
            };
        }
        if shift_type == 0 {
            if amount >= 32 {
                (0, amount == 32 && value & 1 != 0)
            } else {
                (value << amount, (value >> (32 - amount)) & 1 != 0)
            }
        } else if shift_type == 1 {
            if amount >= 32 {
                (0, amount == 32 && (value >> 31u32) & 1 != 0)
            } else {
                (value >> amount, (value >> (amount - 1)) & 1 != 0)
            }
        } else if shift_type == 2 {
            if amount >= 32 {
                let bit = (value >> 31u32) & 1 != 0;
                (if bit {
                    0xFFFF_FFFFu32
                } else {
                    0u32
                }, bit)
            } else {
                let shifted = if value & 0x8000_0000 != 0 {
                    !((!value) >> amount)
                } else {
                    value >> amount
                };
                (shifted, (value >> (amount - 1)) & 1 != 0)
            }
        } else {
            let amount = amount % 32;
            if amount == 0 {
                (value, (value >> 31u32) & 1 != 0)
            } else {
                (rotate_right32(value, amount), (value >> (amount - 1)) & 1 != 0)
            }
        }
    }

    /// Immediate-encoded barrel shift.
    fn barrel_shift(&self, value: u32, shift_type: u32, amount: u32) -> (r: (u32, bool))
        requires
            shift_type < 4,
        ensures
            r == barrel_shift(value, shift_type, amount, true, self@.flag_c()),
    {
        self.barrel_shift_ext(value, shift_type, amount, true)
    }

    fn read_reg(&self, reg: usize) -> (v: u32)
        requires
            reg < 16,
        ensures
            v == self@.read_reg(reg as int),
    {
        if reg == R_PC {
            if self.in_thumb_mode() {
                self.registers[R_PC].wrapping_add(2)
            } else {
                self.registers[R_PC].wrapping_add(4)
            }
        } else {
            self.registers[reg]
        }
    }

    fn decode_operand2(&self, instruction: u32, is_immediate: bool) -> (r: (u32, bool))
        ensures
            r == self@.operand2(instruction, is_immediate),
    {
        if is_immediate {
            let imm = instruction & 0xFF;
            let rotate = (instruction >> 8u32) & 0xF;
            if rotate == 0 {
                (imm, self.flag_c())
            } else {
                let result = rotate_right32(imm, rotate * 2);
                (result, (result >> 31u32) & 1 != 0)
            }
        } else {
            let rm = (instruction & 0xF) as usize;
            let shift_type = (instruction >> 5u32) & 0x3;
            let shift_by_reg = (instruction >> 4u32) & 1 == 1;
            let rm_val = if shift_by_reg && rm == R_PC {
                self.read_reg(rm).wrapping_add(4)
            } else {
                self.read_reg(rm)
            };
            if shift_by_reg {
                let rs = ((instruction >> 8u32) & 0xF) as usize;
                let amount = self.read_reg(rs) & 0xFF;
                self.barrel_shift_ext(rm_val, shift_type, amount, false)
            } else {
                let amount = (instruction >> 7u32) & 0x1F;
                self.barrel_shift_ext(rm_val, shift_type, amount, true)
            }
        }
    }

    /// Whether condition code `cond` (0..=15) holds under the current flags.
    pub fn condition_met(&self, cond: u32) -> (b: bool)
        requires
            cond < 16,
        ensures
            b == self@.condition_met(cond),
    {
        if cond == 0x0 {
            self.flag_z()
        } else if cond == 0x1 {
            !self.flag_z()
        } else if cond == 0x2 {
            self.flag_c()
        } else if cond == 0x3 {
            !self.flag_c()
        } else if cond == 0x4 {
            self.flag_n()
        } else if cond == 0x5 {
            !self.flag_n()
        } else if cond == 0x6 {
            self.flag_v()
        } else if cond == 0x7 {
            !self.flag_v()
        } else if cond == 0x8 {
            self.flag_c() && !self.flag_z()
        } else if cond == 0x9 {
            !self.flag_c() || self.flag_z()
        } else if cond == 0xA {
            self.flag_n() == self.flag_v()
        } else if cond == 0xB {
            self.flag_n() != self.flag_v()
        } else if cond == 0xC {
            !self.flag_z() && (self.flag_n() == self.flag_v())
        } else if cond == 0xD {
            self.flag_z() || (self.flag_n() != self.flag_v())
        } else {
            true
        }
    }

    fn fetch_waitstates(&self, pc: u32) -> (w: u32)
        ensures
            w == self@.fetch_waitstates(pc),
            w <= 4,
    {
        let region = pc >> 24u32;
        if region == 0x02 {
            2
        } else if 0x08 <= region && region <= 0x0D {
            if self.in_thumb_mode() {
                2
            } else {
                4
            }
        } else {
            0
        }
    }
}

} // verus!
