//! Laws of the BIOS services: what Div, Sqrt, CpuSet and CpuFastSet
//! compute.
use vstd::prelude::*;
use super::CpuState;
use super::system::{cpuset_loop, div_trunc, rem_trunc, abs, is_isqrt};
use crate::bus::BusState;
use crate::bus_laws::{
    dma_copy_separate, dma_dst_byte, dma_src_byte, dma_step, dma_writes_cell, unit_write,
    lemma_units_copy, lemma_unit_copy,
};

verus! {

/// `a` advanced by `i` units of `step` bytes and then one more is `a`
/// advanced by `i + 1` units (modulo 2^32).
proof fn lemma_wadd_units(a: u32, i: nat, step: u32)
    requires
        step == 2 || step == 4,
        i < 0x10_0000,
    ensures
        vstd::wrapping::u32_specs::wrapping_add(
            vstd::wrapping::u32_specs::wrapping_add(a, (i * step) as u32),
            step,
        ) == vstd::wrapping::u32_specs::wrapping_add(a, ((i + 1) * step) as u32),
{
    assert(i * step < 0x40_0000) by (nonlinear_arith)
        requires
            step <= 4,
            i < 0x10_0000,
    ;
    assert((i + 1) * step == i * step + step) by (nonlinear_arith);
}

/// The copy loop of CpuSet from unit `i` on is a transfer of `count - i`
/// units with incrementing source and destination.
proof fn lemma_cpuset_as_units(
    b: BusState,
    src: u32,
    dst: u32,
    fill_val: u32,
    is_32: bool,
    i: nat,
    count: nat,
    f: nat,
)
    requires
        i <= count <= 0xF_FFFF,
    ensures
        cpuset_loop(b, src, dst, false, fill_val, is_32, i, count, f) == match b.dma_units_f(
            is_32,
            0,
            0,
            vstd::wrapping::u32_specs::wrapping_add(src, (i * dma_step(is_32)) as u32),
            vstd::wrapping::u32_specs::wrapping_add(dst, (i * dma_step(is_32)) as u32),
            (count - i) as nat,
            f,
        ) {
            None => None,
            Some(r) => Some(r.0),
        },
    decreases count - i,
{
    let step = dma_step(is_32);
    if i < count {
        lemma_wadd_units(src, i, step);
        lemma_wadd_units(dst, i, step);
        let s = vstd::wrapping::u32_specs::wrapping_add(src, (i * step) as u32);
        let d = vstd::wrapping::u32_specs::wrapping_add(dst, (i * step) as u32);
        assert(crate::cpu::arm::wadd(src, (i * (if is_32 { 4int } else { 2int })) as u32) == s);
        assert(crate::cpu::arm::wadd(dst, (i * (if is_32 { 4int } else { 2int })) as u32) == d);
        let r = if is_32 {
            if s > 0xFFFF_FFFC {
                None
            } else {
                b.write_word_f(d, b.read_word(s), f)
            }
        } else {
            if s > 0xFFFF_FFFE {
                None
            } else {
                b.write_halfword_f(d, b.read_halfword(s), f)
            }
        };
        if r is Some {
            lemma_cpuset_as_units(r->0, src, dst, fill_val, is_32, i + 1, count, f);
        }
    }
}

/// CpuSet (0x0B) and CpuFastSet (0x0C) in copy mode (R2 bit 24 clear) copy
/// `count = R2 & 0xFFFFF` units from R0 to R1, in words for CpuFastSet or
/// when R2 bit 26 is set and in halfwords otherwise: when every unit
/// written lies in RAM, each written byte in a cell of its own, and no unit
/// reads a cell the copy writes, byte `j` of unit `k` at R1 reads afterwards
/// as byte `j` of unit `k` at R0 did before (in particular each word at
/// `R1 + 4k` equals the word that was at `R0 + 4k`), and the registers stay.
pub proof fn lemma_cpuset_copies(c: CpuState, b: BusState, function: u32, f: nat, is_32: bool)
    requires
        b.wf(),
        function == 0x0B || function == 0x0C,
        (c.registers[2] >> 24u32) & 1 == 0,
        is_32 == (function == 0x0C || (c.registers[2] >> 26u32) & 1 == 1),
        c.bios_call(b, function, f) is Some,
        dma_copy_separate(
            is_32,
            0,
            0,
            c.registers[0],
            c.registers[1],
            (c.registers[2] & 0xF_FFFF) as nat,
        ),
    ensures
        (c.bios_call(b, function, f)->0).0 == c,
        forall|k: nat, j: nat|
            k < c.registers[2] & 0xF_FFFF && j < (if is_32 {
                4u32
            } else {
                2u32
            }) ==> (c.bios_call(b, function, f)->0).1.read_byte(
                #[trigger] dma_dst_byte(0, c.registers[1], dma_step(is_32), k, j),
            ) == b.read_byte(dma_src_byte(0, c.registers[0], dma_step(is_32), k, j)),
        is_32 ==> forall|k: nat|
            k < c.registers[2] & 0xF_FFFF ==> (c.bios_call(b, function, f)->0).1.read_word(
                #[trigger] (((c.registers[1] + 4 * k) % 0x1_0000_0000) as u32),
            ) == b.read_word(((c.registers[0] + 4 * k) % 0x1_0000_0000) as u32),
{
    let src = c.registers[0];
    let dst = c.registers[1];
    let control = c.registers[2];
    let count = control & 0x000F_FFFF;
    crate::bits::lemma_and_le_u32(control, 0x000F_FFFF);
    assert(((control >> 24u32) & 1 == 1) == false);
    lemma_cpuset_as_units(b, src, dst, 0, is_32, 0, count as nat, f);
    assert(vstd::wrapping::u32_specs::wrapping_add(src, (0 * dma_step(is_32)) as u32) == src);
    assert(vstd::wrapping::u32_specs::wrapping_add(dst, (0 * dma_step(is_32)) as u32) == dst);
    lemma_units_copy(b, is_32, 0, 0, src, dst, count as nat, f);
    let r = (c.bios_call(b, function, f)->0).1;
    if is_32 {
        assert forall|k: nat| k < count implies r.read_word(
            #[trigger] (((dst + 4 * k) % 0x1_0000_0000) as u32),
        ) == b.read_word(((src + 4 * k) % 0x1_0000_0000) as u32) by {
            assert(dma_dst_byte(0, dst, 4, k, 0) == ((dst + 4 * k) % 0x1_0000_0000) as u32);
            assert(dma_src_byte(0, src, 4, k, 0) == ((src + 4 * k) % 0x1_0000_0000) as u32);
            let d0 = ((dst + 4 * k) % 0x1_0000_0000) as u32;
            let s0 = ((src + 4 * k) % 0x1_0000_0000) as u32;
            assert(dma_dst_byte(0, dst, 4, k, 1) == (d0 + 1) as u32);
            assert(dma_dst_byte(0, dst, 4, k, 2) == (d0 + 2) as u32);
            assert(dma_dst_byte(0, dst, 4, k, 3) == (d0 + 3) as u32);
            assert(dma_src_byte(0, src, 4, k, 1) == (s0 + 1) as u32);
            assert(dma_src_byte(0, src, 4, k, 2) == (s0 + 2) as u32);
            assert(dma_src_byte(0, src, 4, k, 3) == (s0 + 3) as u32);
        }
    }
}

/// A 32-bit register read as a signed (two's complement) number.
pub open spec fn signed(x: u32) -> int {
    if x >= 0x8000_0000 {
        x - 0x1_0000_0000
    } else {
        x as int
    }
}

proof fn lemma_signed_mod32(q: int)
    requires
        -0x8000_0000 <= q < 0x8000_0000,
    ensures
        signed(super::arm::mod32(q)) == q,
        (super::arm::mod32(q) as int) == if q < 0 {
            q + 0x1_0000_0000
        } else {
            q
        },
{
    if q < 0 {
        vstd::arithmetic::div_mod::lemma_fundamental_div_mod_converse(
            q,
            0x1_0000_0000,
            -1,
            q + 0x1_0000_0000,
        );
    } else {
        vstd::arithmetic::div_mod::lemma_fundamental_div_mod_converse(q, 0x1_0000_0000, 0, q);
    }
}

/// Div (0x06) with R0 and R1 read as signed numbers, R1 nonzero and not the
/// one overflowing case (-2^31 / -1): afterwards R0 holds the quotient and
/// R1 the remainder, `R0 * R1_before + R1 == R0_before`, the remainder is
/// smaller than the divisor in magnitude and is 0 or has the dividend's sign
/// (division rounds toward zero), and R3 holds the quotient's magnitude;
/// nothing else changes. With R1 zero nothing changes at all.
pub proof fn lemma_div_result(c: CpuState, b: BusState, f: nat)
    requires
        c.wf(),
        c.bios_call(b, 0x06, f) is Some,
    ensures
        ({
            let num = signed(c.registers[0]);
            let den = signed(c.registers[1]);
            let r = (c.bios_call(b, 0x06, f)->0).0;
            let q = signed(r.registers[0]);
            let m = signed(r.registers[1]);
            &&& (c.bios_call(b, 0x06, f)->0).1 == b
            &&& den == 0 ==> r == c
            &&& den != 0 ==> {
                &&& q * den + m == num
                &&& -abs(den) < m < abs(den)
                &&& m == 0 || (m > 0) == (num > 0)
                &&& r.registers[3] as int == abs(q)
                &&& forall|j: int|
                    0 <= j < 16 && j != 0 && j != 1 && j != 3 ==> #[trigger] r.registers[j]
                        == c.registers[j]
            }
        }),
{
    let num = crate::bits::sext32(c.registers[0]);
    let den = crate::bits::sext32(c.registers[1]);
    assert(num == signed(c.registers[0]) && den == signed(c.registers[1]));
    if den != 0 {
        let an = abs(num);
        let ad = abs(den);
        let q = div_trunc(num, den);
        let m = rem_trunc(num, den);
        vstd::arithmetic::div_mod::lemma_fundamental_div_mod(an, ad);
        assert(an / ad <= an) by {
            vstd::arithmetic::div_mod::lemma_div_is_ordered_by_denominator(an, 1, ad);
        }
        assert(0 <= an % ad < ad) by {
            vstd::arithmetic::div_mod::lemma_mod_bound(an, ad);
        }
        assert(q * den + m == num) by (nonlinear_arith)
            requires
                an == abs(num),
                ad == abs(den),
                an == ad * (an / ad) + an % ad,
                q == (if (num >= 0) == (den >= 0) {
                    an / ad
                } else {
                    -(an / ad)
                }),
                m == (if num >= 0 {
                    an % ad
                } else {
                    -(an % ad)
                }),
        ;
        assert(!(num == -0x8000_0000 && den == -1));
        assert(-0x8000_0000 <= q < 0x8000_0000) by {
            if an / ad == 0x8000_0000 {
                assert(an == 0x8000_0000);
                assert(ad == 1) by (nonlinear_arith)
                    requires
                        an == ad * (an / ad) + an % ad,
                        an / ad == 0x8000_0000,
                        an == 0x8000_0000,
                        0 <= an % ad,
                        ad >= 1,
                ;
            }
        }
        lemma_signed_mod32(q);
        lemma_signed_mod32(m);
    }
}

/// Every natural number has an integer square root.
proof fn lemma_isqrt_exists(x: nat) -> (r: int)
    ensures
        is_isqrt(x as int, r),
    decreases x,
{
    if x == 0 {
        0
    } else {
        let p = lemma_isqrt_exists((x - 1) as nat);
        assert(0 <= p && p * p <= x - 1 && x - 1 < (p + 1) * (p + 1));
        if (p + 1) * (p + 1) <= x {
            assert(x < (p + 2) * (p + 2)) by (nonlinear_arith)
                requires
                    x - 1 < (p + 1) * (p + 1),
                    0 <= p,
            ;
            assert(is_isqrt(x as int, p + 1));
            p + 1
        } else {
            assert(is_isqrt(x as int, p));
            p
        }
    }
}

/// Sqrt (0x08): R0 becomes the integer square root of R0 read unsigned, the
/// number whose square is at most R0 and the square of its successor more;
/// nothing else changes.
pub proof fn lemma_sqrt_result(c: CpuState, b: BusState, f: nat)
    requires
        c.wf(),
        c.bios_call(b, 0x08, f) is Some,
    ensures
        ({
            let x = c.registers[0] as int;
            let r = (c.bios_call(b, 0x08, f)->0).0;
            let s = r.registers[0] as int;
            &&& s * s <= x < (s + 1) * (s + 1)
            &&& (c.bios_call(b, 0x08, f)->0).1 == b
            &&& forall|j: int| 0 < j < 16 ==> #[trigger] r.registers[j] == c.registers[j]
        }),
{
    let x = c.registers[0] as int;
    let w = lemma_isqrt_exists(x as nat);
    assert(is_isqrt(x, w));
    let r0 = choose|r: int| is_isqrt(x, r);
    assert(is_isqrt(x, r0));
    assert(r0 < 0x1_0000) by (nonlinear_arith)
        requires
            0 <= r0,
            r0 * r0 <= x,
            x < 0x1_0000_0000,
    ;
}

/// The fill loop of CpuSet from unit `i` on, its fill value being the unit
/// at `src` and `src` not written by the remaining units, is a transfer of
/// `count - i` units from the fixed source `src`.
proof fn lemma_cpuset_fill_as_units(
    b: BusState,
    src: u32,
    dst: u32,
    fill_val: u32,
    is_32: bool,
    i: nat,
    count: nat,
    f: nat,
)
    requires
        b.wf(),
        i <= count <= 0xF_FFFF,
        src <= if is_32 {
            0xFFFF_FFFCu32
        } else {
            0xFFFF_FFFEu32
        },
        fill_val == if is_32 {
            b.read_word(src)
        } else {
            b.read_halfword(src) as u32
        },
        dma_copy_separate(
            is_32,
            2,
            0,
            src,
            vstd::wrapping::u32_specs::wrapping_add(dst, (i * dma_step(is_32)) as u32),
            (count - i) as nat,
        ),
    ensures
        cpuset_loop(b, src, dst, true, fill_val, is_32, i, count, f) == match b.dma_units_f(
            is_32,
            2,
            0,
            src,
            vstd::wrapping::u32_specs::wrapping_add(dst, (i * dma_step(is_32)) as u32),
            (count - i) as nat,
            f,
        ) {
            None => None,
            Some(r) => Some(r.0),
        },
    decreases count - i,
{
    let step = dma_step(is_32);
    if i < count {
        lemma_wadd_units(dst, i, step);
        let d = vstd::wrapping::u32_specs::wrapping_add(dst, (i * step) as u32);
        let nd = vstd::wrapping::u32_specs::wrapping_add(dst, ((i + 1) * step) as u32);
        assert(crate::cpu::arm::wadd(dst, (i * (if is_32 { 4int } else { 2int })) as u32) == d);
        assert(crate::bus::dma_next_src(2, src, step) == src);
        assert(crate::bus::dma_next_dst(0, d, step) == nd);
        let n = (count - i) as nat;
        assert(unit_write(b, is_32, src, d, f) == if is_32 {
            b.write_word_f(d, fill_val, f)
        } else {
            b.write_halfword_f(d, fill_val as u16, f)
        });
        if unit_write(b, is_32, src, d, f) is Some {
            assert forall|j: nat| j < step implies crate::bus::in_ram(
                #[trigger] dma_dst_byte(0, d, step, 0, j),
            ) by {
            }
            assert forall|j1: nat, j2: nat| j1 < j2 < step implies crate::bus::ram_cell(
                #[trigger] dma_dst_byte(0, d, step, 0, j1),
            ) != crate::bus::ram_cell(#[trigger] dma_dst_byte(0, d, step, 0, j2)) by {
            }
            lemma_unit_copy(b, is_32, 2, 0, src, d, step, f);
            let b1 = unit_write(b, is_32, src, d, f)->0;
            // The source is not written by this unit, so the fill value stays.
            assert forall|j: nat| j < step implies #[trigger] b1.read_byte((src + j) as u32)
                == b.read_byte((src + j) as u32) by {
                assert(dma_src_byte(2, src, step, 0, j) == (src + j) as u32);
                assert(!dma_writes_cell(0, d, step, n, dma_src_byte(2, src, step, 0, j)));
                if dma_writes_cell(0, d, step, 1, (src + j) as u32) {
                    let (k, jj) = choose|k: nat, jj: nat|
                        k < 1 && jj < step && crate::bus::ram_cell(
                            #[trigger] dma_dst_byte(0, d, step, k, jj),
                        ) == crate::bus::ram_cell((src + j) as u32);
                    assert(false);
                }
            }
            assert(b1.read_byte(src) == b.read_byte(src)) by {
                assert(b1.read_byte((src + 0nat) as u32) == b.read_byte((src + 0nat) as u32));
            }
            assert(b1.read_byte((src + 1) as u32) == b.read_byte((src + 1) as u32)) by {
                assert(b1.read_byte((src + 1nat) as u32) == b.read_byte((src + 1nat) as u32));
            }
            if is_32 {
                assert(b1.read_byte((src + 2) as u32) == b.read_byte((src + 2) as u32)) by {
                    assert(b1.read_byte((src + 2nat) as u32) == b.read_byte((src + 2nat) as u32));
                }
                assert(b1.read_byte((src + 3) as u32) == b.read_byte((src + 3) as u32)) by {
                    assert(b1.read_byte((src + 3nat) as u32) == b.read_byte((src + 3nat) as u32));
                }
            }
            // The remaining units are still separated.
            crate::bus_laws::lemma_unit_bytes_shift(2, 0, src, d, step);
            assert(dma_copy_separate(is_32, 2, 0, src, nd, (count - (i + 1)) as nat)) by {
                let m = (count - (i + 1)) as nat;
                assert forall|k: nat, j: nat| k < m && j < step implies crate::bus::in_ram(
                    #[trigger] dma_dst_byte(0, nd, step, k, j),
                ) by {
                    assert(dma_dst_byte(0, nd, step, k, j) == dma_dst_byte(0, d, step, k + 1, j));
                }
                assert forall|k: nat, j: nat| k < m && j < step implies !dma_writes_cell(
                    0,
                    nd,
                    step,
                    m,
                    #[trigger] dma_src_byte(2, src, step, k, j),
                ) by {
                    assert(dma_src_byte(2, src, step, k, j) == dma_src_byte(2, src, step, 0, j));
                    let x = dma_src_byte(2, src, step, k, j);
                    assert(!dma_writes_cell(0, d, step, n, x));
                    if dma_writes_cell(0, nd, step, m, x) {
                        let (k2, j2) = choose|k2: nat, j2: nat|
                            k2 < m && j2 < step && crate::bus::ram_cell(
                                #[trigger] dma_dst_byte(0, nd, step, k2, j2),
                            ) == crate::bus::ram_cell(x);
                        assert(dma_dst_byte(0, nd, step, k2, j2) == dma_dst_byte(
                            0,
                            d,
                            step,
                            k2 + 1,
                            j2,
                        ));
                        assert(false);
                    }
                }
                assert forall|k1: nat, j1: nat, k2: nat, j2: nat|
                    k1 < m && j1 < step && k2 < m && j2 < step && (k1 != k2 || j1 != j2) implies crate::bus::ram_cell(
                    #[trigger] dma_dst_byte(0, nd, step, k1, j1),
                ) != crate::bus::ram_cell(#[trigger] dma_dst_byte(0, nd, step, k2, j2)) by {
                    assert(dma_dst_byte(0, nd, step, k1, j1) == dma_dst_byte(0, d, step, k1 + 1, j1));
                    assert(dma_dst_byte(0, nd, step, k2, j2) == dma_dst_byte(0, d, step, k2 + 1, j2));
                }
            }
            lemma_cpuset_fill_as_units(b1, src, dst, fill_val, is_32, i + 1, count, f);
        }
    }
}

/// CpuSet (0x0B) and CpuFastSet (0x0C) in fill mode (R2 bit 24 set) write
/// the unit found at R0 before the call (a word for CpuFastSet or when R2
/// bit 26 is set, a halfword otherwise) into each of the `count = R2 &
/// 0xFFFFF` units from R1 on: when every unit written lies in RAM, each
/// written byte in a cell of its own, and the fill source is not among
/// them, each word (or halfword) at `R1 + step * k` reads afterwards as the
/// one at R0 did; the registers stay.
#[verifier::spinoff_prover]
pub proof fn lemma_cpuset_fills(c: CpuState, b: BusState, function: u32, f: nat, is_32: bool)
    requires
        b.wf(),
        function == 0x0B || function == 0x0C,
        (c.registers[2] >> 24u32) & 1 == 1,
        is_32 == (function == 0x0C || (c.registers[2] >> 26u32) & 1 == 1),
        c.bios_call(b, function, f) is Some,
        dma_copy_separate(
            is_32,
            2,
            0,
            c.registers[0],
            c.registers[1],
            (c.registers[2] & 0xF_FFFF) as nat,
        ),
    ensures
        (c.bios_call(b, function, f)->0).0 == c,
        is_32 ==> forall|k: nat|
            k < c.registers[2] & 0xF_FFFF ==> (c.bios_call(b, function, f)->0).1.read_word(
                #[trigger] (((c.registers[1] + 4 * k) % 0x1_0000_0000) as u32),
            ) == b.read_word(c.registers[0]),
        !is_32 ==> forall|k: nat|
            k < c.registers[2] & 0xF_FFFF ==> (c.bios_call(b, function, f)->0).1.read_halfword(
                #[trigger] (((c.registers[1] + 2 * k) % 0x1_0000_0000) as u32),
            ) == b.read_halfword(c.registers[0]),
{
    let src = c.registers[0];
    let dst = c.registers[1];
    let control = c.registers[2];
    let count = control & 0x000F_FFFF;
    crate::bits::lemma_and_le_u32(control, 0x000F_FFFF);
    let fill_val: u32 = if is_32 {
        b.read_word(src)
    } else {
        b.read_halfword(src) as u32
    };
    assert(((control >> 24u32) & 1 == 1) == true);
    assert(vstd::wrapping::u32_specs::wrapping_add(dst, (0 * dma_step(is_32)) as u32) == dst);
    lemma_cpuset_fill_as_units(b, src, dst, fill_val, is_32, 0, count as nat, f);
    lemma_units_copy(b, is_32, 2, 0, src, dst, count as nat, f);
    let r = (c.bios_call(b, function, f)->0).1;
    let step = dma_step(is_32);
    assert forall|k: nat, j: nat| k < count && j < step implies r.read_byte(
        #[trigger] dma_dst_byte(0, dst, step, k, j),
    ) == b.read_byte((src + j) as u32) by {
        assert(dma_src_byte(2, src, step, k, j) == (src + j) as u32);
    }
    if is_32 {
        lemma_fill_words(r, b, src, dst, count as nat);
    } else {
        lemma_fill_halfwords(r, b, src, dst, count as nat);
    }
}

proof fn lemma_fill_words(r: BusState, b: BusState, src: u32, dst: u32, count: nat)
    requires
        forall|k: nat, j: nat|
            k < count && j < 4 ==> r.read_byte(#[trigger] dma_dst_byte(0, dst, 4, k, j))
                == b.read_byte((src + j) as u32),
    ensures
        forall|k: nat|
            k < count ==> r.read_word(#[trigger] (((dst + 4 * k) % 0x1_0000_0000) as u32))
                == b.read_word(src),
{
    assert forall|k: nat| k < count implies r.read_word(
        #[trigger] (((dst + 4 * k) % 0x1_0000_0000) as u32),
    ) == b.read_word(src) by {
        let d0 = ((dst + 4 * k) % 0x1_0000_0000) as u32;
        assert(dma_dst_byte(0, dst, 4, k, 0) == d0);
        assert(r.read_byte(dma_dst_byte(0, dst, 4, k, 0)) == b.read_byte((src + 0nat) as u32));
        assert(r.read_byte(dma_dst_byte(0, dst, 4, k, 1)) == b.read_byte((src + 1nat) as u32));
        assert(r.read_byte(dma_dst_byte(0, dst, 4, k, 2)) == b.read_byte((src + 2nat) as u32));
        assert(r.read_byte(dma_dst_byte(0, dst, 4, k, 3)) == b.read_byte((src + 3nat) as u32));
    }
}

proof fn lemma_fill_halfwords(r: BusState, b: BusState, src: u32, dst: u32, count: nat)
    requires
        forall|k: nat, j: nat|
            k < count && j < 2 ==> r.read_byte(#[trigger] dma_dst_byte(0, dst, 2, k, j))
                == b.read_byte((src + j) as u32),
    ensures
        forall|k: nat|
            k < count ==> r.read_halfword(#[trigger] (((dst + 2 * k) % 0x1_0000_0000) as u32))
                == b.read_halfword(src),
{
    assert forall|k: nat| k < count implies r.read_halfword(
        #[trigger] (((dst + 2 * k) % 0x1_0000_0000) as u32),
    ) == b.read_halfword(src) by {
        let d0 = ((dst + 2 * k) % 0x1_0000_0000) as u32;
        assert(dma_dst_byte(0, dst, 2, k, 0) == d0);
        assert(r.read_byte(dma_dst_byte(0, dst, 2, k, 0)) == b.read_byte((src + 0nat) as u32));
        assert(r.read_byte(dma_dst_byte(0, dst, 2, k, 1)) == b.read_byte((src + 1nat) as u32));
    }
}
} // verus!
