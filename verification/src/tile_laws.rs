//! Laws of rendering: which tile byte gives the palette index of a text
//! background pixel or a sprite texel and what the flip bits do, how a
//! BGR555 color widens to 24 bits, and what a plain bitmap frame shows.
use vstd::prelude::*;
use crate::ppu::{
    text_tile_index, vram_byte, obj_color_index, ObjInfo, bgr555_rgb, red, green, blue,
    frame_pixel, palette_rgb, dispcnt_of, bldcnt,
};

verus! {

proof fn lemma_flip_row(y: int)
    requires
        0 <= y,
    ensures
        (8 * (y / 8) + 7 - y % 8) % 8 == 7 - y % 8,
        (8 * (y / 8) + 7 - y % 8) / 8 == y / 8,
        0 <= 8 * (y / 8) + 7 - y % 8,
{
    let q = y / 8;
    let r = y % 8;
    assert(y == 8 * q + r && 0 <= r < 8);
    let z = 8 * q + 7 - r;
    vstd::arithmetic::div_mod::lemma_fundamental_div_mod_converse(z, 8, q, 7 - r);
}

/// Clearing a flip bit of a screen entry keeps its tile, the other flip
/// and its palette bank.
proof fn lemma_entry_bits(se: u16)
    by (bit_vector)
    ensures
        (se & !0x800u16) & 0x3FF == se & 0x3FF,
        (se & !0x800u16) & 0x400 == se & 0x400,
        (se & !0x800u16) & 0x800 == 0,
        (se & !0x800u16) >> 12u16 == se >> 12u16,
        (se & !0x400u16) & 0x3FF == se & 0x3FF,
        (se & !0x400u16) & 0x800 == se & 0x800,
        (se & !0x400u16) & 0x400 == 0,
        (se & !0x400u16) >> 12u16 == se >> 12u16,
        se & 0xC00 == 0 ==> se & 0x400 == 0 && se & 0x800 == 0,
        (se >> 12u16) & 0xF == se >> 12u16,
{
}

/// The palette index of a text background pixel (`bx`, `by`) under screen
/// entry `se` (tile number in bits 0-9, horizontal flip bit 10, vertical
/// flip bit 11, palette bank in bits 12-15), tiles starting at character
/// block `cbb` (BGCNT bits 2-3, 16 KB each):
/// - unflipped, in 8 bits per pixel (BGCNT bit 7), the byte at
///   `cbb * 0x4000 + tile * 64 + (by % 8) * 8 + bx % 8`;
/// - unflipped, in 4 bits per pixel, the low nibble (even `bx`) or high
///   nibble (odd `bx`) of the byte at
///   `cbb * 0x4000 + tile * 32 + (by % 8) * 4 + (bx % 8) / 2`, in palette
///   bank `se >> 12`, with nibble 0 transparent (index 0);
/// - with the vertical flip, the index the unflipped entry gives at tile row
///   `7 - by % 8` of the same tile; with the horizontal flip, at tile column
///   `7 - bx % 8`.
pub proof fn lemma_text_tile_index(vram: Seq<u8>, bgcnt: u16, se: u16, bx: int, by: int)
    requires
        0 <= bx,
        0 <= by,
    ensures
        ({
            let cbb = ((bgcnt >> 2u16) & 0x3) as int;
            let tile = (se & 0x3FF) as int;
            let bank = (se >> 12u16) as int;
            let byte4 = vram_byte(vram, cbb * 0x4000 + tile * 32 + (by % 8) * 4 + (bx % 8) / 2);
            let ci = if bx % 2 == 0 {
                byte4 % 16
            } else {
                byte4 / 16
            };
            &&& se & 0xC00 == 0 && bgcnt & 0x80 != 0 ==> text_tile_index(vram, bgcnt, se, bx, by)
                == vram_byte(vram, cbb * 0x4000 + tile * 64 + (by % 8) * 8 + bx % 8) as int
            &&& se & 0xC00 == 0 && bgcnt & 0x80 == 0 ==> text_tile_index(vram, bgcnt, se, bx, by)
                == if ci == 0 {
                0
            } else {
                bank * 16 + ci
            }
            &&& se & 0x800 != 0 ==> text_tile_index(vram, bgcnt, se, bx, by) == text_tile_index(
                vram,
                bgcnt,
                se & !0x800u16,
                bx,
                8 * (by / 8) + 7 - by % 8,
            )
            &&& se & 0x400 != 0 ==> text_tile_index(vram, bgcnt, se, bx, by) == text_tile_index(
                vram,
                bgcnt,
                se & !0x400u16,
                8 * (bx / 8) + 7 - bx % 8,
                by,
            )
        }),
{
    lemma_flip_row(by);
    lemma_flip_row(bx);
    lemma_entry_bits(se);
    assert((bx % 8) % 2 == bx % 2);
    assert((7 - bx % 8) % 2 == (8 * (bx / 8) + 7 - bx % 8) % 2);
}

/// The color index of texel (`px`, `py`) of sprite `o` (tiles from VRAM
/// 0x10000 in 32-byte units):
/// - unflipped, the tile holding it is, in one-dimensional mapping (DISPCNT
///   bit 6), `tile_id + (py / 8) * (width / 8) + px / 8` tiles of its depth
///   on (a 256-color tile is two units), and in two-dimensional mapping
///   `tile_id + (py / 8) * 32 + px / 8` units on (16 rows for 256 colors);
///   within it the byte of row `py % 8`, column `px % 8` (256 colors) or the
///   low (even `px`) or high nibble of byte `px % 8 / 2` (16 colors);
/// - with the horizontal flip, the index the unflipped sprite gives at
///   column `width - 1 - px`; with the vertical flip, at row
///   `height - 1 - py`.
pub proof fn lemma_obj_color_index(vram: Seq<u8>, dispcnt: u16, o: ObjInfo, px: int, py: int)
    requires
        0 <= px < o.width,
        0 <= py < o.height,
    ensures
        ({
            let one_d = dispcnt & 0x40 != 0;
            let unit = if one_d {
                if o.is_8bpp {
                    o.tile_id + (py / 8) * (o.width / 8) * 2 + (px / 8) * 2
                } else {
                    o.tile_id + (py / 8) * (o.width / 8) + px / 8
                }
            } else if o.is_8bpp {
                o.tile_id + (py / 8) * 16 + px / 8
            } else {
                o.tile_id + (py / 8) * 32 + px / 8
            };
            let byte4 = vram_byte(vram, 0x10000 + unit * 32 + (py % 8) * 4 + (px % 8) / 2);
            &&& !o.h_flip && !o.v_flip && o.is_8bpp ==> obj_color_index(vram, dispcnt, o, px, py)
                == vram_byte(vram, 0x10000 + unit * 32 + (py % 8) * 8 + px % 8) as int
            &&& !o.h_flip && !o.v_flip && !o.is_8bpp ==> obj_color_index(vram, dispcnt, o, px, py)
                == if px % 2 == 0 {
                byte4 % 16
            } else {
                byte4 / 16
            }
            &&& o.h_flip ==> obj_color_index(vram, dispcnt, o, px, py) == obj_color_index(
                vram,
                dispcnt,
                (ObjInfo { h_flip: false, ..o }),
                o.width - 1 - px,
                py,
            )
            &&& o.v_flip ==> obj_color_index(vram, dispcnt, o, px, py) == obj_color_index(
                vram,
                dispcnt,
                (ObjInfo { v_flip: false, ..o }),
                px,
                o.height - 1 - py,
            )
        }),
{
    assert((px % 8) % 2 == px % 2);
}

/// A BGR555 color (red in bits 0-4, green in 5-9, blue in 10-14) widens to
/// 0x00RRGGBB with each 8-bit channel holding its 5-bit value in the top
/// bits and the value's top 3 bits repeated below.
pub proof fn lemma_bgr555_channels(c: u16)
    ensures
        red(bgr555_rgb(c)) / 8 == c % 32,
        red(bgr555_rgb(c)) % 8 == (c % 32) / 4,
        green(bgr555_rgb(c)) / 8 == (c / 32) % 32,
        green(bgr555_rgb(c)) % 8 == ((c / 32) % 32) / 4,
        blue(bgr555_rgb(c)) / 8 == (c / 1024) % 32,
        blue(bgr555_rgb(c)) % 8 == ((c / 1024) % 32) / 4,
{
    let r = (c % 32) as int;
    let g = ((c / 32) % 32) as int;
    let b = ((c / 1024) % 32) as int;
    let er = r * 8 + r / 4;
    let eg = g * 8 + g / 4;
    let eb = b * 8 + b / 4;
    assert(0 <= er < 256 && 0 <= eg < 256 && 0 <= eb < 256);
    let v = er * 0x10000 + eg * 0x100 + eb;
    assert(bgr555_rgb(c) as int == v);
    vstd::arithmetic::div_mod::lemma_fundamental_div_mod_converse(v, 0x10000, er, eg * 0x100 + eb);
    vstd::arithmetic::div_mod::lemma_fundamental_div_mod_converse(er, 0x100, 0, er);
    vstd::arithmetic::div_mod::lemma_fundamental_div_mod_converse(v, 0x100, er * 0x100 + eg, eb);
    vstd::arithmetic::div_mod::lemma_fundamental_div_mod_converse(
        er * 0x100 + eg,
        0x100,
        er,
        eg,
    );
    vstd::arithmetic::div_mod::lemma_fundamental_div_mod_converse(er, 8, r, r / 4);
    vstd::arithmetic::div_mod::lemma_fundamental_div_mod_converse(eg, 8, g, g / 4);
    vstd::arithmetic::div_mod::lemma_fundamental_div_mod_converse(eb, 8, b, b / 4);
}

/// Pixel `i` (row by row) of a mode 3 frame without a brightness effect on
/// BG2: the BGR555 color stored little-endian at VRAM bytes `2i` and
/// `2i + 1`.
pub proof fn lemma_mode3_frame(vram: Seq<u8>, palette: Seq<u8>, oam: Seq<u8>, io: Seq<u8>, i: int)
    requires
        dispcnt_of(io) & 7 == 3,
        (bldcnt(io) >> 6u16) & 3 < 2 || (bldcnt(io) >> 2u16) & 1 == 0,
        0 <= i,
        2 * i + 1 < vram.len(),
    ensures
        frame_pixel(vram, palette, oam, io, i) == bgr555_rgb(
            crate::bus::le16(vram[2 * i], vram[2 * i + 1]),
        ),
{
    vstd::arithmetic::div_mod::lemma_fundamental_div_mod(i, 240);
    assert(((i / 240) * 240 + i % 240) * 2 == 2 * i);
}

/// Pixel `i` (row by row) of a mode 4 frame with sprites switched off
/// (DISPCNT bit 12) and no color effect: the palette color indexed by the
/// byte at VRAM `page + i`, the page being 0xA000 when DISPCNT bit 4 is set
/// and 0 otherwise; index 0 shows the backdrop (palette entry 0).
pub proof fn lemma_mode4_frame(vram: Seq<u8>, palette: Seq<u8>, oam: Seq<u8>, io: Seq<u8>, i: int)
    requires
        dispcnt_of(io) & 7 == 4,
        dispcnt_of(io) & 0x1000 == 0,
        (bldcnt(io) >> 6u16) & 3 == 0,
        0 <= i,
    ensures
        ({
            let page: int = if dispcnt_of(io) & 0x10 != 0 {
                0xA000
            } else {
                0
            };
            let index = vram_byte(vram, page + i);
            frame_pixel(vram, palette, oam, io, i) == palette_rgb(palette, index as int)
        }),
{
    vstd::arithmetic::div_mod::lemma_fundamental_div_mod(i, 240);
    assert((i / 240) * 240 + i % 240 == i);
}

} // verus!
