//! Facts about bitwise operations used throughout the emulator.
use vstd::prelude::*;

verus! {

/// A bitwise AND is at most either operand.
pub broadcast proof fn lemma_and_le_u32(x: u32, m: u32)
    ensures
        #[trigger] (x & m) <= m,
        x & m <= x,
{
    assert(x & m <= m && x & m <= x) by (bit_vector);
}

/// A bitwise AND is at most either operand.
pub broadcast proof fn lemma_and_le_u16(x: u16, m: u16)
    ensures
        #[trigger] (x & m) <= m,
        x & m <= x,
{
    assert(x & m <= m && x & m <= x) by (bit_vector);
}

/// A bitwise AND is at most either operand.
pub broadcast proof fn lemma_and_le_u8(x: u8, m: u8)
    ensures
        #[trigger] (x & m) <= m,
        x & m <= x,
{
    assert(x & m <= m && x & m <= x) by (bit_vector);
}

/// Bitwise NOT of a 32-bit value is its complement to `u32::MAX`.
pub proof fn lemma_not_u32(x: u32)
    ensures
        !x == 0xFFFF_FFFF - x,
{
    assert(!x == 0xFFFF_FFFF - x) by (bit_vector);
}

/// Two's complement value of a 32-bit pattern.
pub open spec fn sext32(a: u32) -> int {
    if a >= 0x8000_0000 {
        a - 0x1_0000_0000
    } else {
        a as int
    }
}

/// Sign extension of a 32-bit value to 64 bits.
pub fn sign_extend_64(a: u32) -> (r: u64)
    ensures
        r as int == sext32(a) % 0x1_0000_0000_0000_0000,
{
    if a & 0x8000_0000 != 0 {
        assert(a & 0x8000_0000 != 0 ==> a >= 0x8000_0000 && (a as u64) | 0xFFFF_FFFF_0000_0000
            == a + 0xFFFF_FFFF_0000_0000) by (bit_vector);
        (a as u64) | 0xFFFF_FFFF_0000_0000
    } else {
        assert(a & 0x8000_0000 == 0 ==> a < 0x8000_0000) by (bit_vector);
        a as u64
    }
}

/// Adding after reducing modulo 2^32 is adding then reducing.
pub proof fn lemma_mod32_add(p: int, r: int)
    requires
        p >= 0,
        0 <= r < 0x1_0000_0000,
    ensures
        vstd::wrapping::u32_specs::wrapping_add((p % 0x1_0000_0000) as u32, r as u32) == ((p + r)
            % 0x1_0000_0000) as u32,
{
    vstd::arithmetic::div_mod::lemma_add_mod_noop(p, r, 0x1_0000_0000);
}

/// Multiplying residues modulo 2^64 is multiplying then reducing.
pub proof fn lemma_mul_mod64(x: int, y: int)
    ensures
        ((x % 0x1_0000_0000_0000_0000) * (y % 0x1_0000_0000_0000_0000)) % 0x1_0000_0000_0000_0000
            == (x * y) % 0x1_0000_0000_0000_0000,
{
    vstd::arithmetic::div_mod::lemma_mul_mod_noop_general(x, y, 0x1_0000_0000_0000_0000);
}

/// Adding after reducing modulo 2^64 is adding then reducing.
pub proof fn lemma_mod64_add(p: int, r: int)
    requires
        0 <= r < 0x1_0000_0000_0000_0000,
    ensures
        vstd::wrapping::u64_specs::wrapping_add(
            (p % 0x1_0000_0000_0000_0000) as u64,
            r as u64,
        ) == ((p + r) % 0x1_0000_0000_0000_0000) as u64,
        ((p + 0) % 0x1_0000_0000_0000_0000) == p % 0x1_0000_0000_0000_0000,
{
    vstd::arithmetic::div_mod::lemma_add_mod_noop(p, r, 0x1_0000_0000_0000_0000);
}

/// Two 32-bit halves packed into 64 bits.
pub proof fn lemma_pack64(hi: u32, lo: u32)
    ensures
        ((hi as u64) << 32u64) | (lo as u64) == hi as int * 0x1_0000_0000 + lo as int,
{
    assert(((hi as u64) << 32u64) | (lo as u64) == hi as int * 0x1_0000_0000 + lo as int)
        by (bit_vector);
}

/// Byte `k` (0 = least significant) of a 32-bit value.
pub open spec fn word_byte(v: u32, k: int) -> u8 {
    (if k == 0 {
        v % 0x100
    } else if k == 1 {
        (v / 0x100) % 0x100
    } else if k == 2 {
        (v / 0x1_0000) % 0x100
    } else {
        (v / 0x100_0000) % 0x100
    }) as u8
}

/// The four little-endian bytes of a 32-bit value.
pub open spec fn le32_bytes(v: u32) -> Seq<u8> {
    seq![word_byte(v, 0), word_byte(v, 1), word_byte(v, 2), word_byte(v, 3)]
}

/// The two little-endian bytes of a 16-bit value.
pub open spec fn le16_bytes(v: u16) -> Seq<u8> {
    seq![(v % 0x100) as u8, (v / 0x100) as u8]
}

/// Appends the little-endian bytes of a 32-bit value.
pub fn push_u32_le(out: &mut Vec<u8>, v: u32)
    ensures
        final(out)@ == old(out)@ + le32_bytes(v),
{
    out.push((v % 0x100) as u8);
    out.push(((v / 0x100) % 0x100) as u8);
    out.push(((v / 0x1_0000) % 0x100) as u8);
    out.push(((v / 0x100_0000) % 0x100) as u8);
    assert(out@ =~= old(out)@ + le32_bytes(v));
}

/// Appends the little-endian bytes of a 16-bit value.
pub fn push_u16_le(out: &mut Vec<u8>, v: u16)
    ensures
        final(out)@ == old(out)@ + le16_bytes(v),
{
    out.push((v % 0x100) as u8);
    out.push((v / 0x100) as u8);
    assert(out@ =~= old(out)@ + le16_bytes(v));
}

/// Bytes taken apart little-endian and put back together give the value.
pub proof fn lemma_word_bytes_round_trip(v: u32)
    ensures
        crate::bus::le32(word_byte(v, 0), word_byte(v, 1), word_byte(v, 2), word_byte(v, 3)) == v,
{
    assert(((v % 0x100) as u8 as u32) | ((((v / 0x100) % 0x100) as u8 as u32) << 8u32) | ((((v
        / 0x1_0000) % 0x100) as u8 as u32) << 16u32) | ((((v / 0x100_0000) % 0x100) as u8 as u32)
        << 24u32) == v) by (bit_vector);
}

pub broadcast group group_and_bounds {
    lemma_and_le_u32,
    lemma_and_le_u16,
    lemma_and_le_u8,
}

} // verus!
