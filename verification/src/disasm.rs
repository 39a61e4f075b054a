//! A small ARM disassembler for execution traces: it tells data processing,
//! single transfers, branches and block transfers apart, names their parts
//! and writes them as text.
use vstd::prelude::*;
use crate::cpu::{ror32, rotate_right32};

verus! {

broadcast use crate::bits::group_and_bounds;

/// The second operand of a data-processing instruction.
pub enum Operand2 {
    /// An 8-bit immediate rotated right by twice the 4-bit rotate field.
    Immediate { value: u32 },
    /// A register shifted by an immediate amount (0 meaning no shift shown).
    Register { rm: u32, shift_type: u32, shift_imm: u32 },
}

/// A decoded ARM instruction.
pub enum ArmInstr {
    DataProcessing { cond: u32, opcode: u32, set_flags: bool, rn: u32, rd: u32, operand: Operand2 },
    SingleTransfer { cond: u32, load: bool, rn: u32, rd: u32, offset: u32 },
    /// `displacement` is relative to the branch itself (the pipeline's 8 included).
    Branch { cond: u32, link: bool, displacement: i32 },
    BlockTransfer { cond: u32 },
    Unknown { instruction: u32 },
}

/// A 24-bit two's complement field as an integer.
pub open spec fn sext24(x: u32) -> int {
    if x >= 0x80_0000 {
        x - 0x100_0000
    } else {
        x as int
    }
}

/// The decoding of `i`, by bits 26-27 (class), 28-31 (condition) and the
/// fields of each class.
pub open spec fn decode_spec(i: u32) -> ArmInstr {
    let cond = i >> 28u32;
    let class = (i >> 26u32) & 3;
    let rn = (i >> 16u32) & 0xF;
    let rd = (i >> 12u32) & 0xF;
    if class == 0 {
        ArmInstr::DataProcessing {
            cond,
            opcode: (i >> 21u32) & 0xF,
            set_flags: (i >> 20u32) & 1 == 1,
            rn,
            rd,
            operand: if (i >> 25u32) & 1 == 1 {
                Operand2::Immediate { value: ror32(i & 0xFF, (((i >> 8u32) & 0xF) * 2) as u32) }
            } else {
                Operand2::Register {
                    rm: i & 0xF,
                    shift_type: (i >> 5u32) & 0x3,
                    shift_imm: (i >> 7u32) & 0x1F,
                }
            },
        }
    } else if class == 1 {
        ArmInstr::SingleTransfer { cond, load: (i >> 20u32) & 1 == 1, rn, rd, offset: i & 0xFFF }
    } else if class == 2 {
        if (i >> 25u32) & 1 == 1 {
            ArmInstr::Branch {
                cond,
                link: (i >> 24u32) & 1 == 1,
                displacement: (sext24(i & 0x00FF_FFFF) * 4 + 8) as i32,
            }
        } else {
            ArmInstr::BlockTransfer { cond }
        }
    } else {
        ArmInstr::Unknown { instruction: i }
    }
}

/// Byte offset of a branch from its 24-bit word offset field.
fn branch_offset(i: u32) -> (o: i32)
    ensures
        o as int == sext24(i & 0x00FF_FFFF) * 4 + 8,
{
    let mut offset = i & 0x00FF_FFFF;
    if offset & 0x0080_0000 != 0 {
        offset = offset | 0xFF00_0000;
    }
    let field = i & 0x00FF_FFFF;
    assert((field & 0x0080_0000 != 0 ==> (((field | 0xFF00_0000) << 2u32) as i32) as int == (field
        - 0x100_0000) * 4 && field >= 0x80_0000) && (field & 0x0080_0000 == 0 ==> ((field << 2u32)
        as i32) as int == field * 4 && field < 0x80_0000)) by (bit_vector)
        requires
            field == i & 0x00FF_FFFF,
    ;
    let shifted = (offset << 2u32) as i32;
    assert(shifted as int == sext24(field) * 4);
    shifted.wrapping_add(8)
}

/// Decodes an ARM instruction for display.
pub fn disassemble_arm(instruction: u32) -> (d: ArmInstr)
    ensures
        d == decode_spec(instruction),
{
    let i = instruction;
    let cond = i >> 28u32;
    let class = (i >> 26u32) & 3;
    let rn = (i >> 16u32) & 0xF;
    let rd = (i >> 12u32) & 0xF;
    if class == 0 {
        let operand = if (i >> 25u32) & 1 == 1 {
            Operand2::Immediate { value: rotate_right32(i & 0xFF, ((i >> 8u32) & 0xF) * 2) }
        } else {
            Operand2::Register {
                rm: i & 0xF,
                shift_type: (i >> 5u32) & 0x3,
                shift_imm: (i >> 7u32) & 0x1F,
            }
        };
        ArmInstr::DataProcessing {
            cond,
            opcode: (i >> 21u32) & 0xF,
            set_flags: (i >> 20u32) & 1 == 1,
            rn,
            rd,
            operand,
        }
    } else if class == 1 {
        ArmInstr::SingleTransfer { cond, load: (i >> 20u32) & 1 == 1, rn, rd, offset: i & 0xFFF }
    } else if class == 2 {
        if (i >> 25u32) & 1 == 1 {
            ArmInstr::Branch { cond, link: (i >> 24u32) & 1 == 1, displacement: branch_offset(i) }
        } else {
            ArmInstr::BlockTransfer { cond }
        }
    } else {
        ArmInstr::Unknown { instruction: i }
    }
}

/// Mnemonic suffix of a condition code (none for "always").
pub open spec fn cond_suffix_spec(cond: u32) -> Seq<char> {
    if cond == 0 {
        "EQ"@
    } else if cond == 1 {
        "NE"@
    } else if cond == 2 {
        "CS"@
    } else if cond == 3 {
        "CC"@
    } else if cond == 4 {
        "MI"@
    } else if cond == 5 {
        "PL"@
    } else if cond == 6 {
        "VS"@
    } else if cond == 7 {
        "VC"@
    } else if cond == 8 {
        "HI"@
    } else if cond == 9 {
        "LS"@
    } else if cond == 10 {
        "GE"@
    } else if cond == 11 {
        "LT"@
    } else if cond == 12 {
        "GT"@
    } else if cond == 13 {
        "LE"@
    } else if cond == 14 {
        ""@
    } else if cond == 15 {
        "NV"@
    } else {
        "??"@
    }
}

pub fn cond_suffix(cond: u32) -> (s: &'static str)
    ensures
        s@ == cond_suffix_spec(cond),
{
    if cond == 0 {
        "EQ"
    } else if cond == 1 {
        "NE"
    } else if cond == 2 {
        "CS"
    } else if cond == 3 {
        "CC"
    } else if cond == 4 {
        "MI"
    } else if cond == 5 {
        "PL"
    } else if cond == 6 {
        "VS"
    } else if cond == 7 {
        "VC"
    } else if cond == 8 {
        "HI"
    } else if cond == 9 {
        "LS"
    } else if cond == 10 {
        "GE"
    } else if cond == 11 {
        "LT"
    } else if cond == 12 {
        "GT"
    } else if cond == 13 {
        "LE"
    } else if cond == 14 {
        ""
    } else if cond == 15 {
        "NV"
    } else {
        "??"
    }
}

/// Mnemonic of a data-processing opcode.
pub open spec fn opcode_name_spec(opcode: u32) -> Seq<char> {
    if opcode == 0 {
        "AND"@
    } else if opcode == 1 {
        "EOR"@
    } else if opcode == 2 {
        "SUB"@
    } else if opcode == 3 {
        "RSB"@
    } else if opcode == 4 {
        "ADD"@
    } else if opcode == 5 {
        "ADC"@
    } else if opcode == 6 {
        "SBC"@
    } else if opcode == 7 {
        "RSC"@
    } else if opcode == 8 {
        "TST"@
    } else if opcode == 9 {
        "TEQ"@
    } else if opcode == 10 {
        "CMP"@
    } else if opcode == 11 {
        "CMN"@
    } else if opcode == 12 {
        "ORR"@
    } else if opcode == 13 {
        "MOV"@
    } else if opcode == 14 {
        "BIC"@
    } else if opcode == 15 {
        "MVN"@
    } else {
        "???"@
    }
}

pub fn opcode_name(opcode: u32) -> (s: &'static str)
    ensures
        s@ == opcode_name_spec(opcode),
{
    if opcode == 0 {
        "AND"
    } else if opcode == 1 {
        "EOR"
    } else if opcode == 2 {
        "SUB"
    } else if opcode == 3 {
        "RSB"
    } else if opcode == 4 {
        "ADD"
    } else if opcode == 5 {
        "ADC"
    } else if opcode == 6 {
        "SBC"
    } else if opcode == 7 {
        "RSC"
    } else if opcode == 8 {
        "TST"
    } else if opcode == 9 {
        "TEQ"
    } else if opcode == 10 {
        "CMP"
    } else if opcode == 11 {
        "CMN"
    } else if opcode == 12 {
        "ORR"
    } else if opcode == 13 {
        "MOV"
    } else if opcode == 14 {
        "BIC"
    } else if opcode == 15 {
        "MVN"
    } else {
        "???"
    }
}

/// Mnemonic of a shift type.
pub open spec fn shift_name_spec(shift_type: u32) -> Seq<char> {
    if shift_type == 0 {
        "LSL"@
    } else if shift_type == 1 {
        "LSR"@
    } else if shift_type == 2 {
        "ASR"@
    } else if shift_type == 3 {
        "ROR"@
    } else {
        "???"@
    }
}

pub fn shift_name(shift_type: u32) -> (s: &'static str)
    ensures
        s@ == shift_name_spec(shift_type),
{
    if shift_type == 0 {
        "LSL"
    } else if shift_type == 1 {
        "LSR"
    } else if shift_type == 2 {
        "ASR"
    } else if shift_type == 3 {
        "ROR"
    } else {
        "???"
    }
}

/// Comparison opcodes (TST, TEQ, CMP, CMN) name only `rn`.
pub fn is_test_opcode(opcode: u32) -> (b: bool)
    ensures
        b == (8 <= opcode <= 11),
{
    8 <= opcode && opcode <= 11
}

/// Move opcodes (MOV, MVN) name only `rd`.
pub fn is_move_opcode(opcode: u32) -> (b: bool)
    ensures
        b == (opcode == 13 || opcode == 15),
{
    opcode == 13 || opcode == 15
}

// ---------------------------------------------------------------------------
// Text
// ---------------------------------------------------------------------------

/// Text of the digit `d` (0-15), uppercase for 10-15.
pub open spec fn digit_text(d: int) -> Seq<char> {
    if d == 0 {
        "0"@
    } else if d == 1 {
        "1"@
    } else if d == 2 {
        "2"@
    } else if d == 3 {
        "3"@
    } else if d == 4 {
        "4"@
    } else if d == 5 {
        "5"@
    } else if d == 6 {
        "6"@
    } else if d == 7 {
        "7"@
    } else if d == 8 {
        "8"@
    } else if d == 9 {
        "9"@
    } else if d == 10 {
        "A"@
    } else if d == 11 {
        "B"@
    } else if d == 12 {
        "C"@
    } else if d == 13 {
        "D"@
    } else if d == 14 {
        "E"@
    } else {
        "F"@
    }
}

fn digit_str(d: u32) -> (s: &'static str)
    requires
        d < 16,
    ensures
        s@ == digit_text(d as int),
{
    if d == 0 {
        "0"
    } else if d == 1 {
        "1"
    } else if d == 2 {
        "2"
    } else if d == 3 {
        "3"
    } else if d == 4 {
        "4"
    } else if d == 5 {
        "5"
    } else if d == 6 {
        "6"
    } else if d == 7 {
        "7"
    } else if d == 8 {
        "8"
    } else if d == 9 {
        "9"
    } else if d == 10 {
        "A"
    } else if d == 11 {
        "B"
    } else if d == 12 {
        "C"
    } else if d == 13 {
        "D"
    } else if d == 14 {
        "E"
    } else {
        "F"
    }
}

/// Decimal text of `n`, without leading zeros.
pub open spec fn dec_text(n: nat) -> Seq<char>
    decreases n,
{
    if n < 10 {
        digit_text(n as int)
    } else {
        dec_text(n / 10) + digit_text((n % 10) as int)
    }
}

/// The last `n` hexadecimal digits of `v`, uppercase, with leading zeros.
pub open spec fn hex_text(v: nat, n: nat) -> Seq<char>
    decreases n,
{
    if n == 0 {
        Seq::empty()
    } else {
        hex_text(v / 16, (n - 1) as nat) + digit_text((v % 16) as int)
    }
}

/// Decimal text of `v` with its sign, `+` for zero and up.
pub open spec fn signed_text(v: int) -> Seq<char> {
    if v >= 0 {
        "+"@ + dec_text(v as nat)
    } else {
        "-"@ + dec_text((-v) as nat)
    }
}

/// A register name: `R` and its number.
pub open spec fn reg_text(r: u32) -> Seq<char> {
    "R"@ + dec_text(r as nat)
}

/// The trace text of an ARM instruction: mnemonic with condition and `S`
/// suffix, then the operands (comparisons name only Rn, moves only Rd); a
/// register operand shows its shift when the amount is not 0; a transfer
/// shows its offset when not 0; a branch shows its signed displacement; an
/// unknown instruction shows its 8 hex digits.
pub open spec fn arm_text(i: u32) -> Seq<char> {
    match decode_spec(i) {
        ArmInstr::DataProcessing { cond, opcode, set_flags, rn, rd, operand } => {
            let head = opcode_name_spec(opcode) + cond_suffix_spec(cond) + (if set_flags {
                "S"@
            } else {
                ""@
            }) + " "@;
            let regs = if 8 <= opcode <= 11 {
                reg_text(rn)
            } else if opcode == 13 || opcode == 15 {
                reg_text(rd)
            } else {
                reg_text(rd) + ", "@ + reg_text(rn)
            };
            match operand {
                Operand2::Immediate { value } => head + regs + ", #"@ + dec_text(value as nat),
                Operand2::Register { rm, shift_type, shift_imm } => head + regs + ", "@ + reg_text(rm)
                    + if shift_imm > 0 {
                    ", "@ + shift_name_spec(shift_type) + " #"@ + dec_text(shift_imm as nat)
                } else {
                    ""@
                },
            }
        },
        ArmInstr::SingleTransfer { cond, load, rn, rd, offset } => (if load {
            "LDR"@
        } else {
            "STR"@
        }) + cond_suffix_spec(cond) + " "@ + reg_text(rd) + ", ["@ + reg_text(rn) + (if offset > 0 {
            ", #"@ + dec_text(offset as nat)
        } else {
            ""@
        }) + "]"@,
        ArmInstr::Branch { cond, link, displacement } => (if link {
            "BL"@
        } else {
            "B"@
        }) + cond_suffix_spec(cond) + " #"@ + signed_text(displacement as int),
        ArmInstr::BlockTransfer { cond } => "LDM/STM"@ + cond_suffix_spec(cond),
        ArmInstr::Unknown { instruction } => "??? 0x"@ + hex_text(instruction as nat, 8),
    }
}

/// Appends the decimal text of `n`.
pub fn push_dec(s: &mut String, n: u32)
    ensures
        final(s)@ == old(s)@ + dec_text(n as nat),
    decreases n,
{
    if n >= 10 {
        push_dec(s, n / 10);
    }
    s.append(digit_str(n % 10));
    assert(final(s)@ =~= old(s)@ + dec_text(n as nat));
}

/// Appends the last `n` hexadecimal digits of `v`.
pub fn push_hex(s: &mut String, v: u32, n: u32)
    ensures
        final(s)@ == old(s)@ + hex_text(v as nat, n as nat),
    decreases n,
{
    if n > 0 {
        push_hex(s, v / 16, n - 1);
        s.append(digit_str(v % 16));
    }
    assert(final(s)@ =~= old(s)@ + hex_text(v as nat, n as nat));
}

/// Appends a register name.
fn push_reg(s: &mut String, r: u32)
    ensures
        final(s)@ == old(s)@ + reg_text(r),
{
    s.append("R");
    push_dec(s, r);
    assert(final(s)@ =~= old(s)@ + reg_text(r));
}

/// The trace text of an ARM instruction.
pub fn format_arm(instruction: u32) -> (text: String)
    ensures
        text@ == arm_text(instruction),
{
    let mut s = String::new();
    match disassemble_arm(instruction) {
        ArmInstr::DataProcessing { cond, opcode, set_flags, rn, rd, operand } => {
            s.append(opcode_name(opcode));
            s.append(cond_suffix(cond));
            if set_flags {
                s.append("S");
            } else {
                s.append("");
            }
            s.append(" ");
            let ghost head = s@;
            if is_test_opcode(opcode) {
                push_reg(&mut s, rn);
            } else if is_move_opcode(opcode) {
                push_reg(&mut s, rd);
            } else {
                push_reg(&mut s, rd);
                s.append(", ");
                push_reg(&mut s, rn);
            }
            let ghost with_regs = s@;
            match operand {
                Operand2::Immediate { value } => {
                    s.append(", #");
                    push_dec(&mut s, value);
                },
                Operand2::Register { rm, shift_type, shift_imm } => {
                    s.append(", ");
                    push_reg(&mut s, rm);
                    if shift_imm > 0 {
                        s.append(", ");
                        s.append(shift_name(shift_type));
                        s.append(" #");
                        push_dec(&mut s, shift_imm);
                    } else {
                        s.append("");
                    }
                },
            }
            assert(s@ =~= arm_text(instruction));
        },
        ArmInstr::SingleTransfer { cond, load, rn, rd, offset } => {
            if load {
                s.append("LDR");
            } else {
                s.append("STR");
            }
            s.append(cond_suffix(cond));
            s.append(" ");
            push_reg(&mut s, rd);
            s.append(", [");
            push_reg(&mut s, rn);
            if offset > 0 {
                s.append(", #");
                push_dec(&mut s, offset);
            } else {
                s.append("");
            }
            s.append("]");
            assert(s@ =~= arm_text(instruction));
        },
        ArmInstr::Branch { cond, link, displacement } => {
            if link {
                s.append("BL");
            } else {
                s.append("B");
            }
            s.append(cond_suffix(cond));
            s.append(" #");
            if displacement >= 0 {
                s.append("+");
                push_dec(&mut s, displacement as u32);
            } else {
                s.append("-");
                push_dec(&mut s, (0i64 - displacement as i64) as u32);
            }
            assert(s@ =~= arm_text(instruction));
        },
        ArmInstr::BlockTransfer { cond } => {
            s.append("LDM/STM");
            s.append(cond_suffix(cond));
            assert(s@ =~= arm_text(instruction));
        },
        ArmInstr::Unknown { instruction } => {
            s.append("??? 0x");
            push_hex(&mut s, instruction, 8);
            assert(s@ =~= arm_text(instruction));
        },
    }
    s
}

/// The trace text of a THUMB instruction: `T:` and its 4 hex digits.
pub fn format_thumb(instruction: u16) -> (text: String)
    ensures
        text@ == "T:"@ + hex_text(instruction as nat, 4),
{
    let mut s = String::new();
    s.append("T:");
    push_hex(&mut s, instruction as u32, 4);
    s
}

} // verus!
