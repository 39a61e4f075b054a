//! Laws of the ARM single data transfers: which address LDR, LDRB, STR and
//! STRB use, what a load gives, what a store leaves in memory and when the
//! base register is written back.
use vstd::prelude::*;
use super::{CpuState, ror32, barrel_shift};
use crate::bus::{BusState, in_ram, le32};
use crate::bus_laws::lemma_write_word_any_budget;

verus! {

proof fn lemma_rotated_bytes(b0: u8, b1: u8, b2: u8, b3: u8, ea: u32)
    by (bit_vector)
    ensures
        ror32(le32(b0, b1, b2, b3), 0) & 0xFF == b0 as u32,
        ror32(le32(b0, b1, b2, b3), 8) & 0xFF == b1 as u32,
        ror32(le32(b0, b1, b2, b3), 16) & 0xFF == b2 as u32,
        ror32(le32(b0, b1, b2, b3), 24) & 0xFF == b3 as u32,
        ea & 3 < 4,
        (ea & 0xFFFF_FFFC) + (ea & 3) == ea,
        (ea & 3 == 0) == (ea & 0xFFFF_FFFC == ea),
        (ea & 3 == 0) == (ea % 4 == 0),
{
}

/// LDRB loads the byte at the access address `ea`; LDR loads a word whose
/// low byte is the byte at `ea`, and the whole word at `ea` when `ea` is
/// aligned; a load leaves the bus alone (addresses as in
/// [`lemma_single_write_back`]).
#[verifier::spinoff_prover]
#[verifier::rlimit(100)]
pub proof fn lemma_single_load(
    c: CpuState,
    b: BusState,
    instruction: u32,
    f: nat,
    base: u32,
    offset: u32,
    addr: u32,
    ea: u32,
)
    requires
        c.wf(),
        b.wf(),
        c.single_transfer(b, instruction, f) is Some,
        base == c.read_reg(((instruction >> 16u32) & 0xF) as int),
        offset == if (instruction >> 25u32) & 1 == 0 {
            instruction & 0xFFF
        } else {
            barrel_shift(
                c.read_reg((instruction & 0xF) as int),
                (instruction >> 5u32) & 0x3,
                (instruction >> 7u32) & 0x1F,
                true,
                c.flag_c(),
            ).0
        },
        addr as int == if (instruction >> 23u32) & 1 == 1 {
            (base + offset) % 0x1_0000_0000
        } else {
            (base - offset) % 0x1_0000_0000
        },
        ea == if (instruction >> 24u32) & 1 == 1 {
            addr
        } else {
            base
        },
    ensures
        ({
            let is_load = (instruction >> 20u32) & 1 == 1;
            let is_byte = (instruction >> 22u32) & 1 == 1;
            let write_back = (instruction >> 21u32) & 1 == 1;
            let pre = (instruction >> 24u32) & 1 == 1;
            let rn = ((instruction >> 16u32) & 0xF) as int;
            let rd = ((instruction >> 12u32) & 0xF) as int;
            let r = c.single_transfer(b, instruction, f)->0;
            &&& is_load && is_byte ==> r.0.registers[rd] == b.read_byte(ea) as u32
            &&& is_load && !is_byte && ea <= 0xFFFF_FFFC ==> r.0.registers[rd] & 0xFF == b.read_byte(
                ea,
            ) as u32
            &&& is_load && !is_byte && ea & 3 == 0 ==> r.0.registers[rd] == b.read_word(ea)
            &&& is_load ==> r.1 == b
        }),
{
    assert((instruction >> 16u32) & 0xF < 16 && (instruction >> 12u32) & 0xF < 16) by {
        crate::bits::lemma_and_le_u32(instruction >> 16u32, 0xF);
        crate::bits::lemma_and_le_u32(instruction >> 12u32, 0xF);
    }
    lemma_wrap(base, offset);
    let is_load = (instruction >> 20u32) & 1 == 1;
    let is_byte = (instruction >> 22u32) & 1 == 1;
    if is_load && !is_byte {
        let al = ea & 0xFFFF_FFFC;
        let b0 = b.read_byte(al);
        let b1 = b.read_byte((al + 1) as u32);
        let b2 = b.read_byte((al + 2) as u32);
        let b3 = b.read_byte((al + 3) as u32);
        lemma_rotated_bytes(b0, b1, b2, b3, ea);
        let k = ea & 3;
        let v = CpuState::load_word_rotated(b, ea);
        assert(v == ror32(le32(b0, b1, b2, b3), (k * 8) as u32));
        if k == 0 {
            assert(v & 0xFF == b0 as u32);
        } else if k == 1 {
            assert(v & 0xFF == b1 as u32);
        } else if k == 2 {
            assert(v & 0xFF == b2 as u32);
        } else {
            assert(v & 0xFF == b3 as u32);
        }
    }
}

/// STR writes Rd as a word at the access address `ea` aligned down to a
/// multiple of 4, and STRB writes Rd's low byte at `ea` (addresses as in
/// [`lemma_single_write_back`]).
#[verifier::spinoff_prover]
#[verifier::rlimit(100)]
pub proof fn lemma_single_store(
    c: CpuState,
    b: BusState,
    instruction: u32,
    f: nat,
    base: u32,
    offset: u32,
    addr: u32,
    ea: u32,
)
    requires
        c.wf(),
        b.wf(),
        c.single_transfer(b, instruction, f) is Some,
        base == c.read_reg(((instruction >> 16u32) & 0xF) as int),
        offset == if (instruction >> 25u32) & 1 == 0 {
            instruction & 0xFFF
        } else {
            barrel_shift(
                c.read_reg((instruction & 0xF) as int),
                (instruction >> 5u32) & 0x3,
                (instruction >> 7u32) & 0x1F,
                true,
                c.flag_c(),
            ).0
        },
        addr as int == if (instruction >> 23u32) & 1 == 1 {
            (base + offset) % 0x1_0000_0000
        } else {
            (base - offset) % 0x1_0000_0000
        },
        ea == if (instruction >> 24u32) & 1 == 1 {
            addr
        } else {
            base
        },
    ensures
        ({
            let is_load = (instruction >> 20u32) & 1 == 1;
            let is_byte = (instruction >> 22u32) & 1 == 1;
            let rd = ((instruction >> 12u32) & 0xF) as int;
            &&& !is_load && !is_byte ==> (c.single_transfer(b, instruction, f)->0).1
                == b.write_word_f(ea & 0xFFFF_FFFC, c.registers[rd], f)->0
            &&& !is_load && is_byte ==> (c.single_transfer(b, instruction, f)->0).1
                == b.write_byte_f(ea, c.registers[rd] as u8, f)->0
        }),
{
    lemma_wrap(base, offset);
}

/// A word written, with any DMA nesting budget that defines the write, to
/// an aligned RAM address reads back unchanged.
#[verifier::spinoff_prover]
pub proof fn lemma_store_word_ram(b: BusState, ea: u32, v: u32, f: nat)
    requires
        b.wf(),
        ea & 3 == 0,
        in_ram(ea),
        b.write_word_f(ea & 0xFFFF_FFFC, v, f) is Some,
    ensures
        (b.write_word_f(ea & 0xFFFF_FFFC, v, f)->0).read_word(ea) == v,
{
    lemma_rotated_bytes(0, 0, 0, 0, ea);
    assert(ea & 0xFFFF_FFFC == ea && ea % 4 == 0);
    lemma_write_word_any_budget(b, ea, v, f);
    crate::bus::lemma_ram_word_write_then_read(b, ea, v);
}

/// LDR / LDRB / STR / STRB (bits 26-27 = 01) with base Rn read as an
/// operand (`base`) and offset `offset` (the 12-bit immediate, or Rm through
/// the barrel shifter): the address `addr` is `base + offset` (U bit set) or
/// `base - offset` modulo 2^32, and the access uses `addr` when pre-indexed
/// (P bit) and `base` otherwise (`ea`).
/// The base register becomes `addr` when post-indexed or with write-back
/// (W bit), unless a load targets it; otherwise it keeps its value.
#[verifier::spinoff_prover]
#[verifier::rlimit(100)]
pub proof fn lemma_single_write_back(
    c: CpuState,
    b: BusState,
    instruction: u32,
    f: nat,
    base: u32,
    offset: u32,
    addr: u32,
    ea: u32,
)
    requires
        c.wf(),
        b.wf(),
        c.single_transfer(b, instruction, f) is Some,
        base == c.read_reg(((instruction >> 16u32) & 0xF) as int),
        offset == if (instruction >> 25u32) & 1 == 0 {
            instruction & 0xFFF
        } else {
            barrel_shift(
                c.read_reg((instruction & 0xF) as int),
                (instruction >> 5u32) & 0x3,
                (instruction >> 7u32) & 0x1F,
                true,
                c.flag_c(),
            ).0
        },
        addr as int == if (instruction >> 23u32) & 1 == 1 {
            (base + offset) % 0x1_0000_0000
        } else {
            (base - offset) % 0x1_0000_0000
        },
        ea == if (instruction >> 24u32) & 1 == 1 {
            addr
        } else {
            base
        },
    ensures
        ({
            let is_load = (instruction >> 20u32) & 1 == 1;
            let is_byte = (instruction >> 22u32) & 1 == 1;
            let write_back = (instruction >> 21u32) & 1 == 1;
            let pre = (instruction >> 24u32) & 1 == 1;
            let rn = ((instruction >> 16u32) & 0xF) as int;
            let rd = ((instruction >> 12u32) & 0xF) as int;
            let r = c.single_transfer(b, instruction, f)->0;
            &&& (!pre || write_back) && !(is_load && rd == rn) ==> r.0.registers[rn] == addr
            &&& !(!pre || write_back) && !(is_load && rd == rn) ==> r.0.registers[rn]
                == c.registers[rn]
        }),
{
    assert((instruction >> 16u32) & 0xF < 16 && (instruction >> 12u32) & 0xF < 16) by {
        crate::bits::lemma_and_le_u32(instruction >> 16u32, 0xF);
        crate::bits::lemma_and_le_u32(instruction >> 12u32, 0xF);
    }
    lemma_wrap(base, offset);
}

/// Wrapping addition and subtraction are the sum and difference modulo 2^32.
pub(crate) proof fn lemma_wrap(a: u32, b: u32)
    ensures
        super::arm::wadd(a, b) as int == (a + b) % 0x1_0000_0000,
        super::arm::wsub(a, b) as int == (a - b) % 0x1_0000_0000,
{
    if a + b > u32::MAX {
        vstd::arithmetic::div_mod::lemma_fundamental_div_mod_converse(a + b, 0x1_0000_0000, 1, a + b - 0x1_0000_0000);
    } else {
        vstd::arithmetic::div_mod::lemma_fundamental_div_mod_converse(a + b, 0x1_0000_0000, 0, a + b);
    }
    if a - b < 0 {
        vstd::arithmetic::div_mod::lemma_fundamental_div_mod_converse(a - b, 0x1_0000_0000, -1, a - b + 0x1_0000_0000);
    } else {
        vstd::arithmetic::div_mod::lemma_fundamental_div_mod_converse(a - b, 0x1_0000_0000, 0, a - b);
    }
}

} // verus!
