//! The picture processing unit: turns VRAM, palette RAM, OAM and the display
//! registers into a 240x160 frame of 0x00RRGGBB pixels.
//!
//! Display modes (DISPCNT bits 0-2): mode 0 composites up to four tiled
//! backgrounds and the sprite (OBJ) layer with per-pixel priority and
//! blending; mode 3 is a 16-bit bitmap; mode 4 is an 8-bit paletted bitmap
//! (double-buffered) with sprites; other modes show a grey screen.
use vstd::prelude::*;

verus! {

broadcast use crate::bits::group_and_bounds;

pub const SCREEN_WIDTH: usize = 240;
pub const SCREEN_HEIGHT: usize = 160;
pub const SCREEN_PIXELS: usize = 38400;

/// A layer pixel with nothing drawn.
pub const TRANSPARENT: u32 = 0xFF00_0000;

/// Layer identifiers, as used by the BLDCNT target bits.
pub const LAYER_BG2: u8 = 2;
pub const LAYER_OBJ: u8 = 4;
pub const LAYER_BD: u8 = 5;

/// Frame shown in the display modes that are not rendered.
pub const UNSUPPORTED_MODE_COLOR: u32 = 0x0033_3333;

// ---------------------------------------------------------------------------
// Colors
// ---------------------------------------------------------------------------

/// A 5-bit channel widened to 8 bits (the top bits repeat into the bottom).
pub open spec fn expand5(x: int) -> int {
    x * 8 + x / 4
}

/// A BGR555 color (red in bits 0-4, green 5-9, blue 10-14) as 0x00RRGGBB.
pub open spec fn bgr555_rgb(c: u16) -> u32 {
    (expand5((c % 32) as int) * 0x10000 + expand5(((c / 32) % 32) as int) * 0x100 + expand5(
        ((c / 1024) % 32) as int,
    )) as u32
}

pub open spec fn red(c: u32) -> int {
    ((c / 0x10000) % 0x100) as int
}

pub open spec fn green(c: u32) -> int {
    ((c / 0x100) % 0x100) as int
}

pub open spec fn blue(c: u32) -> int {
    (c % 0x100) as int
}

pub open spec fn min_int(a: int, b: int) -> int {
    if a < b {
        a
    } else {
        b
    }
}

/// 0x00RRGGBB from three channel values (bits of wide channels overlap, as
/// the hardware registers would).
pub open spec fn pack_rgb(r: u32, g: u32, b: u32) -> u32 {
    (r << 16u32) | (g << 8u32) | b
}

/// Alpha blend: each channel is `(a * eva + b * evb) / 16`, at most 255.
pub open spec fn alpha_blend_spec(a: u32, b: u32, eva: u32, evb: u32) -> u32 {
    (min_int((red(a) * eva + red(b) * evb) / 16, 255) * 0x10000 + min_int(
        (green(a) * eva + green(b) * evb) / 16,
        255,
    ) * 0x100 + min_int((blue(a) * eva + blue(b) * evb) / 16, 255)) as u32
}

/// Brightness increase: each channel moves toward 255 by `evy`/16.
pub open spec fn brightness_up_spec(c: u32, evy: u32) -> u32 {
    pack_rgb(
        (red(c) + (255 - red(c)) * evy / 16) as u32,
        (green(c) + (255 - green(c)) * evy / 16) as u32,
        (blue(c) + (255 - blue(c)) * evy / 16) as u32,
    )
}

/// Brightness decrease: each channel moves toward 0 by `evy`/16.
pub open spec fn brightness_down_spec(c: u32, evy: u32) -> u32 {
    pack_rgb(
        (red(c) - red(c) * evy / 16) as u32,
        (green(c) - green(c) * evy / 16) as u32,
        (blue(c) - blue(c) * evy / 16) as u32,
    )
}

/// Whether darkening `c` by `evy` stays non-negative in every channel.
pub open spec fn brightness_down_defined(c: u32, evy: u32) -> bool {
    &&& red(c) * evy / 16 <= red(c)
    &&& green(c) * evy / 16 <= green(c)
    &&& blue(c) * evy / 16 <= blue(c)
}

/// Little-endian halfword of a byte sequence.
pub open spec fn u16_at(s: Seq<u8>, off: int) -> u16 {
    crate::bus::le16(s[off], s[off + 1])
}

/// Palette entry `index` as 0x00RRGGBB; 0 outside the palette.
pub open spec fn palette_rgb(palette: Seq<u8>, index: int) -> u32 {
    if index * 2 + 1 >= palette.len() {
        0
    } else {
        bgr555_rgb(u16_at(palette, index * 2))
    }
}

proof fn lemma_channels(c: u32)
    ensures
        (c >> 16u32) & 0xFF == red(c),
        (c >> 8u32) & 0xFF == green(c),
        c & 0xFF == blue(c),
{
    assert((c >> 16u32) & 0xFF == (c / 0x10000) % 0x100 && (c >> 8u32) & 0xFF == (c / 0x100)
        % 0x100 && c & 0xFF == c % 0x100) by (bit_vector);
}

proof fn lemma_pack_small(r: u32, g: u32, b: u32)
    requires
        r <= 255,
        g <= 255,
        b <= 255,
    ensures
        pack_rgb(r, g, b) == r * 0x10000 + g * 0x100 + b,
{
    assert(r <= 255 && g <= 255 && b <= 255 ==> (r << 16u32) | (g << 8u32) | b == r * 0x10000 + g
        * 0x100 + b) by (bit_vector);
}

/// Converts a BGR555 color to 0x00RRGGBB.
pub fn bgr555_to_rgb(bgr555: u16) -> (rgb: u32)
    ensures
        rgb == bgr555_rgb(bgr555),
{
    let r5 = (bgr555 & 0x1F) as u32;
    let g5 = ((bgr555 >> 5u16) & 0x1F) as u32;
    let b5 = ((bgr555 >> 10u16) & 0x1F) as u32;
    let r8 = (r5 << 3u32) | (r5 >> 2u32);
    let g8 = (g5 << 3u32) | (g5 >> 2u32);
    let b8 = (b5 << 3u32) | (b5 >> 2u32);
    assert((((bgr555 & 0x1F) as u32) << 3u32) | (((bgr555 & 0x1F) as u32) >> 2u32) == (bgr555
        % 32) * 8 + (bgr555 % 32) / 4 && ((((bgr555 >> 5u16) & 0x1F) as u32) << 3u32) | ((((bgr555
        >> 5u16) & 0x1F) as u32) >> 2u32) == ((bgr555 / 32) % 32) * 8 + ((bgr555 / 32) % 32) / 4
        && ((((bgr555 >> 10u16) & 0x1F) as u32) << 3u32) | ((((bgr555 >> 10u16) & 0x1F) as u32)
        >> 2u32) == ((bgr555 / 1024) % 32) * 8 + ((bgr555 / 1024) % 32) / 4) by (bit_vector);
    proof {
        lemma_pack_small(r8, g8, b8);
    }
    (r8 << 16u32) | (g8 << 8u32) | b8
}

/// Every channel's `x * eva + y * evb` of an alpha blend fits in 32 bits.
pub open spec fn alpha_blend_fits(a: u32, b: u32, eva: u32, evb: u32) -> bool {
    &&& red(a) * eva + red(b) * evb <= u32::MAX
    &&& green(a) * eva + green(b) * evb <= u32::MAX
    &&& blue(a) * eva + blue(b) * evb <= u32::MAX
}

/// Every channel's `(255 - x) * evy` of a brightness increase fits in 32 bits.
pub open spec fn brighten_fits(c: u32, evy: u32) -> bool {
    &&& (255 - red(c)) * evy <= u32::MAX
    &&& (255 - green(c)) * evy <= u32::MAX
    &&& (255 - blue(c)) * evy <= u32::MAX
}

/// Every channel's `x * evy` of a brightness decrease fits in 32 bits.
pub open spec fn darken_fits(c: u32, evy: u32) -> bool {
    &&& red(c) * evy <= u32::MAX
    &&& green(c) * evy <= u32::MAX
    &&& blue(c) * evy <= u32::MAX
}

/// With coefficients of at most 16 (as the blend registers give), every
/// effect's arithmetic fits and darkening stays non-negative.
proof fn lemma_effects_fit(a: u32, b: u32, eva: u32, evb: u32, evy: u32)
    requires
        eva <= 16,
        evb <= 16,
        evy <= 16,
    ensures
        alpha_blend_fits(a, b, eva, evb),
        brighten_fits(a, evy),
        darken_fits(a, evy),
        brightness_down_defined(a, evy),
{
    lemma_channels(a);
    lemma_channels(b);
    assert forall|x: int, e: u32| 0 <= x <= 255 && e <= 16 implies #[trigger] (x * e) <= 255 * 16
        by {
        assert(x * e <= 255 * 16) by (nonlinear_arith)
            requires
                0 <= x <= 255,
                e <= 16,
        ;
    }
    assert(red(a) * eva <= 255 * 16 && red(b) * evb <= 255 * 16);
    assert(green(a) * eva <= 255 * 16 && green(b) * evb <= 255 * 16);
    assert(blue(a) * eva <= 255 * 16 && blue(b) * evb <= 255 * 16);
    assert((255 - red(a)) * evy <= 255 * 16 && red(a) * evy <= 255 * 16);
    assert((255 - green(a)) * evy <= 255 * 16 && green(a) * evy <= 255 * 16);
    assert((255 - blue(a)) * evy <= 255 * 16 && blue(a) * evy <= 255 * 16);
    lemma_darken_defined(a, evy);
}

proof fn lemma_product_nonneg(x: int, e: u32)
    requires
        0 <= x,
    ensures
        0 <= x * e,
{
    assert(0 <= x * e) by (nonlinear_arith)
        requires
            0 <= x,
    ;
}

/// Alpha blend of two colors with coefficients `eva` and `evb`.
pub fn alpha_blend(a: u32, b: u32, eva: u32, evb: u32) -> (c: u32)
    requires
        alpha_blend_fits(a, b, eva, evb),
    ensures
        c == alpha_blend_spec(a, b, eva, evb),
{
    proof {
        lemma_channels(a);
        lemma_channels(b);
        lemma_product_nonneg(red(a), eva);
        lemma_product_nonneg(red(b), evb);
        lemma_product_nonneg(green(a), eva);
        lemma_product_nonneg(green(b), evb);
        lemma_product_nonneg(blue(a), eva);
        lemma_product_nonneg(blue(b), evb);
    }
    let r = (((a >> 16u32) & 0xFF) * eva + ((b >> 16u32) & 0xFF) * evb) / 16;
    let g = (((a >> 8u32) & 0xFF) * eva + ((b >> 8u32) & 0xFF) * evb) / 16;
    let bl = ((a & 0xFF) * eva + (b & 0xFF) * evb) / 16;
    let r = if r < 255 {
        r
    } else {
        255
    };
    let g = if g < 255 {
        g
    } else {
        255
    };
    let bl = if bl < 255 {
        bl
    } else {
        255
    };
    proof {
        lemma_pack_small(r, g, bl);
    }
    (r << 16u32) | (g << 8u32) | bl
}

/// Brightness increase of `color` by `evy`/16.
pub fn brightness_up(color: u32, evy: u32) -> (c: u32)
    requires
        brighten_fits(color, evy),
    ensures
        c == brightness_up_spec(color, evy),
{
    proof {
        lemma_channels(color);
        lemma_product_nonneg(255 - red(color), evy);
        lemma_product_nonneg(255 - green(color), evy);
        lemma_product_nonneg(255 - blue(color), evy);
    }
    let r = (color >> 16u32) & 0xFF;
    let g = (color >> 8u32) & 0xFF;
    let b = color & 0xFF;
    let r2 = r + (255 - r) * evy / 16;
    let g2 = g + (255 - g) * evy / 16;
    let b2 = b + (255 - b) * evy / 16;
    (r2 << 16u32) | (g2 << 8u32) | b2
}

/// Brightness decrease of `color` by `evy`/16.
pub fn brightness_down(color: u32, evy: u32) -> (c: u32)
    requires
        darken_fits(color, evy),
        brightness_down_defined(color, evy),
    ensures
        c == brightness_down_spec(color, evy),
{
    proof {
        lemma_channels(color);
        lemma_product_nonneg(red(color), evy);
        lemma_product_nonneg(green(color), evy);
        lemma_product_nonneg(blue(color), evy);
    }
    let r = (color >> 16u32) & 0xFF;
    let g = (color >> 8u32) & 0xFF;
    let b = color & 0xFF;
    let r2 = r - r * evy / 16;
    let g2 = g - g * evy / 16;
    let b2 = b - b * evy / 16;
    (r2 << 16u32) | (g2 << 8u32) | b2
}

/// Little-endian halfword of the I/O register file at `offset`.
pub fn read_io_u16(io: &[u8], offset: usize) -> (h: u16)
    requires
        offset + 1 < io@.len(),
    ensures
        h == u16_at(io@, offset as int),
{
    (io[offset] as u16) | ((io[offset + 1] as u16) << 8u16)
}

/// Palette entry `index` as 0x00RRGGBB (0 past the end of the palette).
pub fn palette_to_rgb(palette: &[u8], index: usize) -> (c: u32)
    requires
        index * 2 + 1 <= usize::MAX,
    ensures
        c == palette_rgb(palette@, index as int),
{
    let offset = index * 2;
    if offset + 1 >= palette.len() {
        return 0;
    }
    let bgr555 = (palette[offset] as u16) | ((palette[offset + 1] as u16) << 8u16);
    bgr555_to_rgb(bgr555)
}

// ---------------------------------------------------------------------------
// Layers
// ---------------------------------------------------------------------------

/// VRAM byte at `addr`, 0 past the end.
pub open spec fn vram_byte(vram: Seq<u8>, addr: int) -> u8 {
    if 0 <= addr < vram.len() {
        vram[addr]
    } else {
        0
    }
}

/// 4-bit color index of a packed pair of pixels: even pixels use the low
/// nibble, odd pixels the high one.
pub open spec fn nibble(byte: u8, x: int) -> int {
    if x % 2 == 0 {
        (byte % 16) as int
    } else {
        ((byte / 16) % 16) as int
    }
}

/// Width and height in pixels of a text background by its screen size
/// (BGCNT bits 14-15): 256 or 512 each way.
pub open spec fn text_bg_dims(bgcnt: u16) -> (int, int) {
    let screen_size = (bgcnt >> 14u16) & 0x3;
    (
        if screen_size == 1 || screen_size == 3 {
            512
        } else {
            256
        },
        if screen_size == 2 || screen_size == 3 {
            512
        } else {
            256
        },
    )
}

/// Background coordinates of screen pixel (`sx`, `sy`) after scrolling by
/// BGxHOFS/BGxVOFS (9 bits each), wrapping at the background's size.
pub open spec fn text_bg_pos(io: Seq<u8>, bg: int, bgcnt: u16, sx: int, sy: int) -> (int, int) {
    let hofs = (u16_at(io, 0x10 + bg * 4) & 0x1FF) as int;
    let vofs = (u16_at(io, 0x12 + bg * 4) & 0x1FF) as int;
    ((sx + hofs) % text_bg_dims(bgcnt).0, (sy + vofs) % text_bg_dims(bgcnt).1)
}

/// VRAM address of the screen entry for background pixel (`bx`, `by`): the
/// map is made of 32x32-tile screen blocks of 2 KB from the block in BGCNT
/// bits 8-12.
pub open spec fn screen_entry_addr(bgcnt: u16, bx: int, by: int) -> int {
    let sbb = ((bgcnt >> 8u16) & 0x1F) as int;
    let screen_size = (bgcnt >> 14u16) & 0x3;
    let tile_x = bx / 8;
    let tile_y = by / 8;
    let sbb_offset = if screen_size == 0 {
        0
    } else if screen_size == 1 {
        tile_x / 32
    } else if screen_size == 2 {
        tile_y / 32
    } else {
        tile_x / 32 + (tile_y / 32) * 2
    };
    sbb * 0x800 + sbb_offset * 0x800 + ((tile_y % 32) * 32 + tile_x % 32) * 2
}

/// Palette index drawn by screen entry `se` at background pixel (`bx`,
/// `by`), with the entry's flips; 0 is transparent. Tiles start at the
/// character block in BGCNT bits 2-3 and take 32 bytes (4 bits per pixel)
/// or 64 bytes (8 bits per pixel, BGCNT bit 7).
pub open spec fn text_tile_index(vram: Seq<u8>, bgcnt: u16, se: u16, bx: int, by: int) -> int {
    let cbb = ((bgcnt >> 2u16) & 0x3) as int;
    let tile_id = (se & 0x3FF) as int;
    let px = if se & 0x400 != 0 {
        7 - bx % 8
    } else {
        bx % 8
    };
    let py = if se & 0x800 != 0 {
        7 - by % 8
    } else {
        by % 8
    };
    let tile_base = cbb * 0x4000;
    if bgcnt & 0x80 != 0 {
        vram_byte(vram, tile_base + tile_id * 64 + py * 8 + px) as int
    } else {
        let ci = nibble(vram_byte(vram, tile_base + tile_id * 32 + py * 4 + px / 2), px);
        if ci == 0 {
            0
        } else {
            ((se >> 12u16) & 0xF) as int * 16 + ci
        }
    }
}

/// Halfword of `s` at `off`, 0 where it would run past the end.
pub open spec fn halfword_at(s: Seq<u8>, off: int) -> u16 {
    if 0 <= off && off + 1 < s.len() {
        u16_at(s, off)
    } else {
        0
    }
}

/// The color of text background `bg` (control `bgcnt`) at screen pixel
/// (`sx`, `sy`); `None` where the tile pixel is transparent.
pub open spec fn text_bg_color(
    vram: Seq<u8>,
    palette: Seq<u8>,
    io: Seq<u8>,
    bg: int,
    bgcnt: u16,
    sx: int,
    sy: int,
) -> Option<u32> {
    let (bx, by) = text_bg_pos(io, bg, bgcnt, sx, sy);
    let se = halfword_at(vram, screen_entry_addr(bgcnt, bx, by));
    let index = text_tile_index(vram, bgcnt, se, bx, by);
    if index == 0 {
        None
    } else {
        Some(palette_rgb(palette, index))
    }
}

/// Decoded OAM attributes of one sprite.
pub struct ObjInfo {
    /// Drawn at all: regular (non-affine, not hidden) with a valid shape.
    pub visible: bool,
    pub is_8bpp: bool,
    pub width: usize,
    pub height: usize,
    pub priority: u8,
    /// Top row, 0-255 (rows wrap around at 256).
    pub y: usize,
    /// Left column, -256..255.
    pub x: i32,
    pub h_flip: bool,
    pub v_flip: bool,
    pub tile_id: usize,
    pub pal_bank: usize,
}

/// Sprite size in pixels by shape (square, wide, tall) and size.
pub open spec fn obj_dims(shape: int, size: int) -> (usize, usize) {
    if shape == 0 {
        if size == 0 {
            (8, 8)
        } else if size == 1 {
            (16, 16)
        } else if size == 2 {
            (32, 32)
        } else {
            (64, 64)
        }
    } else if shape == 1 {
        if size == 0 {
            (16, 8)
        } else if size == 1 {
            (32, 8)
        } else if size == 2 {
            (32, 16)
        } else {
            (64, 32)
        }
    } else {
        if size == 0 {
            (8, 16)
        } else if size == 1 {
            (8, 32)
        } else if size == 2 {
            (16, 32)
        } else {
            (32, 64)
        }
    }
}

/// Attributes of sprite `k` (OAM entry of 8 bytes).
pub open spec fn obj_info(oam: Seq<u8>, k: int) -> ObjInfo {
    let base = k * 8;
    let attr0 = u16_at(oam, base);
    let attr1 = u16_at(oam, base + 2);
    let attr2 = u16_at(oam, base + 4);
    let shape = ((attr0 >> 14u16) & 0x3) as int;
    let size = ((attr1 >> 14u16) & 0x3) as int;
    let raw_x = (attr1 & 0x1FF) as int;
    ObjInfo {
        visible: base + 5 < oam.len() && (attr0 >> 8u16) & 0x3 == 0 && shape <= 2,
        is_8bpp: attr0 & 0x2000 != 0,
        width: obj_dims(shape, size).0,
        height: obj_dims(shape, size).1,
        priority: ((attr2 >> 10u16) & 0x3) as u8,
        y: (attr0 & 0xFF) as usize,
        x: (if raw_x >= 256 {
            raw_x - 512
        } else {
            raw_x
        }) as i32,
        h_flip: attr1 & 0x1000 != 0,
        v_flip: attr1 & 0x2000 != 0,
        tile_id: (attr2 & 0x3FF) as usize,
        pal_bank: ((attr2 >> 12u16) & 0xF) as usize,
    }
}

/// Tile (in 32-byte units from VRAM 0x10000) holding texel (`tx`, `ty`) of
/// a sprite: in 1D mapping (DISPCNT bit 6) a sprite's tiles follow each
/// other; in 2D mapping rows of tiles are 32 units apart.
pub open spec fn obj_tile(dispcnt: u16, o: ObjInfo, tx: int, ty: int) -> int {
    let tile_col = tx / 8;
    let tile_row = ty / 8;
    if dispcnt & 0x40 != 0 {
        if o.is_8bpp {
            o.tile_id + tile_row * (o.width / 8) * 2 + tile_col * 2
        } else {
            o.tile_id + tile_row * (o.width / 8) + tile_col
        }
    } else {
        o.tile_id + tile_row * (if o.is_8bpp {
            16int
        } else {
            32int
        }) + tile_col
    }
}

/// Color index of texel (`px`, `py`) of a sprite, after its flips.
pub open spec fn obj_color_index(vram: Seq<u8>, dispcnt: u16, o: ObjInfo, px: int, py: int) -> int {
    let tex_x = if o.h_flip {
        o.width - 1 - px
    } else {
        px
    };
    let tex_y = if o.v_flip {
        o.height - 1 - py
    } else {
        py
    };
    let tile = obj_tile(dispcnt, o, tex_x, tex_y);
    let pix_x = tex_x % 8;
    let pix_y = tex_y % 8;
    if o.is_8bpp {
        vram_byte(vram, 0x10000 + tile * 32 + pix_y * 8 + pix_x) as int
    } else {
        nibble(vram_byte(vram, 0x10000 + tile * 32 + pix_y * 4 + pix_x / 2), pix_x)
    }
}

/// Color and priority a sprite draws at screen pixel (`sx`, `sy`), if any.
/// Sprite rows wrap around at 256; sprite colors come from the second half of
/// palette RAM.
pub open spec fn obj_draw(
    vram: Seq<u8>,
    palette: Seq<u8>,
    dispcnt: u16,
    o: ObjInfo,
    sx: int,
    sy: int,
) -> Option<(u32, u8)> {
    let py = (sy - o.y) % 256;
    let px = sx - o.x;
    if !o.visible || py >= o.height || px < 0 || px >= o.width {
        None
    } else {
        let ci = obj_color_index(vram, dispcnt, o, px, py);
        if ci == 0 {
            None
        } else {
            Some(
                (
                    palette_rgb(
                        palette,
                        if o.is_8bpp {
                            256 + ci
                        } else {
                            256 + o.pal_bank * 16 + ci
                        },
                    ),
                    o.priority,
                ),
            )
        }
    }
}

/// Color and priority sprite `k` draws at screen pixel (`sx`, `sy`), if any.
pub open spec fn obj_pixel(
    vram: Seq<u8>,
    palette: Seq<u8>,
    oam: Seq<u8>,
    dispcnt: u16,
    k: int,
    sx: int,
    sy: int,
) -> Option<(u32, u8)> {
    obj_draw(vram, palette, dispcnt, obj_info(oam, k), sx, sy)
}

/// The sprite layer at (`sx`, `sy`) from sprites `k..128`: the
/// lowest-numbered sprite drawing there wins.
pub open spec fn obj_layer_from(
    vram: Seq<u8>,
    palette: Seq<u8>,
    oam: Seq<u8>,
    dispcnt: u16,
    k: int,
    sx: int,
    sy: int,
) -> Option<(u32, u8)>
    decreases 128 - k,
{
    if k >= 128 || k < 0 {
        None
    } else {
        match obj_pixel(vram, palette, oam, dispcnt, k, sx, sy) {
            Some(v) => Some(v),
            None => obj_layer_from(vram, palette, oam, dispcnt, k + 1, sx, sy),
        }
    }
}


/// Screen position (x, y) of pixel `i` of a frame, row by row.
pub proof fn lemma_pixel_index(x: int, y: int)
    requires
        0 <= x < 240,
    ensures
        (y * 240 + x) % 240 == x,
        (y * 240 + x) / 240 == y,
{
    vstd::arithmetic::div_mod::lemma_fundamental_div_mod_converse(y * 240 + x, 240, y, x);
}

/// Halfword of `s` at `off`, 0 where it would run past the end.
fn halfword_or_zero(s: &[u8], off: usize) -> (h: u16)
    ensures
        h == halfword_at(s@, off as int),
{
    if off < s.len() && s.len() - off > 1 {
        (s[off] as u16) | ((s[off + 1] as u16) << 8u16)
    } else {
        0
    }
}

/// Byte of `s` at `addr`, 0 past the end.
fn byte_or_zero(s: &[u8], addr: usize) -> (b: u8)
    ensures
        b == vram_byte(s@, addr as int),
{
    if addr < s.len() {
        s[addr]
    } else {
        0
    }
}

fn text_bg_position(io: &[u8], bg: usize, bgcnt: u16, sx: usize, sy: usize) -> (p: (usize, usize))
    requires
        bg < 4,
        io@.len() >= 0x20,
        sx < SCREEN_WIDTH,
        sy < SCREEN_HEIGHT,
    ensures
        p.0 as int == text_bg_pos(io@, bg as int, bgcnt, sx as int, sy as int).0,
        p.1 as int == text_bg_pos(io@, bg as int, bgcnt, sx as int, sy as int).1,
        p.0 < 512,
        p.1 < 512,
{
    let screen_size = (bgcnt >> 14u16) & 0x3;
    let hofs = (read_io_u16(io, 0x10 + bg * 4) & 0x1FF) as usize;
    let vofs = (read_io_u16(io, 0x12 + bg * 4) & 0x1FF) as usize;
    let w: usize = if screen_size == 1 || screen_size == 3 {
        512
    } else {
        256
    };
    let h: usize = if screen_size == 2 || screen_size == 3 {
        512
    } else {
        256
    };
    ((sx + hofs) % w, (sy + vofs) % h)
}

fn screen_entry_address(bgcnt: u16, bx: usize, by: usize) -> (a: usize)
    requires
        bx < 512,
        by < 512,
    ensures
        a as int == screen_entry_addr(bgcnt, bx as int, by as int),
{
    let sbb = ((bgcnt >> 8u16) & 0x1F) as usize;
    let screen_size = (bgcnt >> 14u16) & 0x3;
    let tile_x = bx / 8;
    let tile_y = by / 8;
    let sbb_offset: usize = if screen_size == 0 {
        0
    } else if screen_size == 1 {
        tile_x / 32
    } else if screen_size == 2 {
        tile_y / 32
    } else {
        tile_x / 32 + (tile_y / 32) * 2
    };
    sbb * 0x800 + sbb_offset * 0x800 + ((tile_y % 32) * 32 + tile_x % 32) * 2
}

fn text_tile_palette_index(vram: &[u8], bgcnt: u16, se: u16, bx: usize, by: usize) -> (i: usize)
    requires
        bx < 512,
        by < 512,
    ensures
        i as int == text_tile_index(vram@, bgcnt, se, bx as int, by as int),
        i < 256,
{
    let cbb = ((bgcnt >> 2u16) & 0x3) as usize;
    let tile_id = (se & 0x3FF) as usize;
    let px = if se & 0x400 != 0 {
        7 - bx % 8
    } else {
        bx % 8
    };
    let py = if se & 0x800 != 0 {
        7 - by % 8
    } else {
        by % 8
    };
    let tile_base = cbb * 0x4000;
    if bgcnt & 0x80 != 0 {
        byte_or_zero(vram, tile_base + tile_id * 64 + py * 8 + px) as usize
    } else {
        let byte = byte_or_zero(vram, tile_base + tile_id * 32 + py * 4 + px / 2);
        let ci: usize = if px % 2 == 0 {
            (byte % 16) as usize
        } else {
            ((byte / 16) % 16) as usize
        };
        if ci == 0 {
            0
        } else {
            ((se >> 12u16) & 0xF) as usize * 16 + ci
        }
    }
}

/// The color of text background `bg` at screen pixel (`sx`, `sy`), if opaque.
fn text_bg_pixel(
    vram: &[u8],
    palette: &[u8],
    io: &[u8],
    bg: usize,
    bgcnt: u16,
    sx: usize,
    sy: usize,
) -> (c: Option<u32>)
    requires
        bg < 4,
        io@.len() >= 0x20,
        sx < SCREEN_WIDTH,
        sy < SCREEN_HEIGHT,
    ensures
        c == text_bg_color(vram@, palette@, io@, bg as int, bgcnt, sx as int, sy as int),
{
    let (bx, by) = text_bg_position(io, bg, bgcnt, sx, sy);
    let se = halfword_or_zero(vram, screen_entry_address(bgcnt, bx, by));
    let index = text_tile_palette_index(vram, bgcnt, se, bx, by);
    if index == 0 {
        None
    } else {
        Some(palette_to_rgb(palette, index))
    }
}

/// A layer pixel drawn over what was there.
pub open spec fn draw_over(c: Option<u32>, under: u32) -> u32 {
    match c {
        Some(v) => v,
        None => under,
    }
}

/// Draws text background `bg` (control `bgcnt`) into a 240x160 layer buffer,
/// leaving transparent pixels as they were.
fn render_text_bg_layer(
    vram: &[u8],
    palette: &[u8],
    io: &[u8],
    pixels: &mut Vec<u32>,
    bg: usize,
    bgcnt: u16,
)
    requires
        bg < 4,
        io@.len() >= 0x20,
        old(pixels)@.len() == SCREEN_PIXELS,
    ensures
        final(pixels)@.len() == SCREEN_PIXELS,
        forall|i: int|
            0 <= i < SCREEN_PIXELS ==> #[trigger] final(pixels)@[i] == draw_over(
                text_bg_color(vram@, palette@, io@, bg as int, bgcnt, i % 240, i / 240),
                old(pixels)@[i],
            ),
{
    let ghost before = pixels@;
    let mut sy: usize = 0;
    while sy < SCREEN_HEIGHT
        invariant
            bg < 4,
            io@.len() >= 0x20,
            sy <= SCREEN_HEIGHT,
            pixels@.len() == SCREEN_PIXELS,
            before.len() == SCREEN_PIXELS,
            forall|i: int|
                0 <= i < sy * 240 ==> #[trigger] pixels@[i] == draw_over(
                    text_bg_color(vram@, palette@, io@, bg as int, bgcnt, i % 240, i / 240),
                    before[i],
                ),
            forall|i: int| sy * 240 <= i < SCREEN_PIXELS ==> #[trigger] pixels@[i] == before[i],
        decreases SCREEN_HEIGHT - sy,
    {
        let mut sx: usize = 0;
        while sx < SCREEN_WIDTH
            invariant
                bg < 4,
                io@.len() >= 0x20,
                sy < SCREEN_HEIGHT,
                sx <= SCREEN_WIDTH,
                pixels@.len() == SCREEN_PIXELS,
                before.len() == SCREEN_PIXELS,
                forall|i: int|
                    0 <= i < sy * 240 + sx ==> #[trigger] pixels@[i] == draw_over(
                        text_bg_color(vram@, palette@, io@, bg as int, bgcnt, i % 240, i / 240),
                        before[i],
                    ),
                forall|i: int| sy * 240 + sx <= i < SCREEN_PIXELS ==> #[trigger] pixels@[i] == before[i],
            decreases SCREEN_WIDTH - sx,
        {
            let c = text_bg_pixel(vram, palette, io, bg, bgcnt, sx, sy);
            let k = sy * SCREEN_WIDTH + sx;
            proof {
                lemma_pixel_index(sx as int, sy as int);
            }
            match c {
                Some(v) => {
                    pixels.set(k, v);
                },
                None => {},
            }
            sx = sx + 1;
        }
        sy = sy + 1;
    }
}

fn obj_size(shape: usize, size: usize) -> (d: (usize, usize))
    ensures
        d == obj_dims(shape as int, size as int),
{
    if shape == 0 {
        if size == 0 {
            (8, 8)
        } else if size == 1 {
            (16, 16)
        } else if size == 2 {
            (32, 32)
        } else {
            (64, 64)
        }
    } else if shape == 1 {
        if size == 0 {
            (16, 8)
        } else if size == 1 {
            (32, 8)
        } else if size == 2 {
            (32, 16)
        } else {
            (64, 32)
        }
    } else {
        if size == 0 {
            (8, 16)
        } else if size == 1 {
            (8, 32)
        } else if size == 2 {
            (16, 32)
        } else {
            (32, 64)
        }
    }
}

/// The attributes of sprite `k`, or `None` when its entry runs past the end
/// of OAM.
fn obj_attributes(oam: &[u8], k: usize) -> (r: Option<ObjInfo>)
    requires
        k < 128,
    ensures
        r is Some <==> k * 8 + 5 < oam@.len(),
        r matches Some(o) ==> o == obj_info(oam@, k as int),
{
    let base = k * 8;
    if base + 5 >= oam.len() {
        return None;
    }
    let attr0 = (oam[base] as u16) | ((oam[base + 1] as u16) << 8u16);
    let attr1 = (oam[base + 2] as u16) | ((oam[base + 3] as u16) << 8u16);
    let attr2 = (oam[base + 4] as u16) | ((oam[base + 5] as u16) << 8u16);
    let shape = ((attr0 >> 14u16) & 0x3) as usize;
    let size = ((attr1 >> 14u16) & 0x3) as usize;
    let (width, height) = obj_size(shape, size);
    let raw_x = (attr1 & 0x1FF) as i32;
    Some(
        ObjInfo {
            visible: (attr0 >> 8u16) & 0x3 == 0 && shape <= 2,
            is_8bpp: attr0 & 0x2000 != 0,
            width,
            height,
            priority: ((attr2 >> 10u16) & 0x3) as u8,
            y: (attr0 & 0xFF) as usize,
            x: if raw_x >= 256 {
                raw_x - 512
            } else {
                raw_x
            },
            h_flip: attr1 & 0x1000 != 0,
            v_flip: attr1 & 0x2000 != 0,
            tile_id: (attr2 & 0x3FF) as usize,
            pal_bank: ((attr2 >> 12u16) & 0xF) as usize,
        },
    )
}

/// Ranges of decoded sprite attributes.
pub open spec fn obj_in_range(o: ObjInfo) -> bool {
    &&& 8 <= o.width <= 64
    &&& 8 <= o.height <= 64
    &&& o.y < 256
    &&& -256 <= o.x < 256
    &&& o.tile_id < 1024
    &&& o.pal_bank < 16
    &&& o.priority < 4
}

proof fn lemma_obj_info_in_range(oam: Seq<u8>, k: int)
    ensures
        obj_in_range(obj_info(oam, k)),
{
}

proof fn lemma_mul_le_64(a: int, b: int)
    requires
        0 <= a <= 8,
        0 <= b <= 8,
    ensures
        0 <= a * b <= 64,
{
    assert(0 <= a * b <= 64) by (nonlinear_arith)
        requires
            0 <= a <= 8,
            0 <= b <= 8,
    ;
}

fn obj_tile_number(dispcnt: u16, o: &ObjInfo, tx: usize, ty: usize) -> (t: usize)
    requires
        obj_in_range(*o),
        tx < o.width,
        ty < o.height,
    ensures
        t as int == obj_tile(dispcnt, *o, tx as int, ty as int),
        t < 2048,
{
    let tile_col = tx / 8;
    let tile_row = ty / 8;
    proof {
        lemma_mul_le_64(tile_row as int, (o.width / 8) as int);
    }
    if dispcnt & 0x40 != 0 {
        if o.is_8bpp {
            o.tile_id + tile_row * (o.width / 8) * 2 + tile_col * 2
        } else {
            o.tile_id + tile_row * (o.width / 8) + tile_col
        }
    } else {
        o.tile_id + tile_row * (if o.is_8bpp {
            16
        } else {
            32
        }) + tile_col
    }
}

/// Color index (0 transparent) of texel (`px`, `py`) of sprite `o`.
fn obj_texel(vram: &[u8], dispcnt: u16, o: &ObjInfo, px: usize, py: usize) -> (ci: usize)
    requires
        obj_in_range(*o),
        px < o.width,
        py < o.height,
    ensures
        ci as int == obj_color_index(vram@, dispcnt, *o, px as int, py as int),
        ci < 256,
{
    let tex_x = if o.h_flip {
        o.width - 1 - px
    } else {
        px
    };
    let tex_y = if o.v_flip {
        o.height - 1 - py
    } else {
        py
    };
    let tile = obj_tile_number(dispcnt, o, tex_x, tex_y);
    let pix_x = tex_x % 8;
    let pix_y = tex_y % 8;
    if o.is_8bpp {
        byte_or_zero(vram, 0x10000 + tile * 32 + pix_y * 8 + pix_x) as usize
    } else {
        let byte = byte_or_zero(vram, 0x10000 + tile * 32 + pix_y * 4 + pix_x / 2);
        if pix_x % 2 == 0 {
            (byte % 16) as usize
        } else {
            ((byte / 16) % 16) as usize
        }
    }
}

/// The color part of a sprite pixel.
pub open spec fn obj_color(v: Option<(u32, u8)>) -> Option<u32> {
    match v {
        Some(cp) => Some(cp.0),
        None => None,
    }
}

/// The priority part of a sprite pixel, drawn over `under`.
pub open spec fn obj_priority_over(v: Option<(u32, u8)>, under: u8) -> u8 {
    match v {
        Some(cp) => cp.1,
        None => under,
    }
}

/// Screen row `s` shows sprite row `py` of a sprite at row `y` exactly when
/// `s` is `y + py` wrapped at 256.
proof fn lemma_row_wrap(s: int, y: int, py: int)
    requires
        0 <= s < 256,
        0 <= y < 256,
        0 <= py < 256,
    ensures
        ((s - y) % 256 == py) <==> (s == (y + py) % 256),
{
    if s >= y {
        vstd::arithmetic::div_mod::lemma_fundamental_div_mod_converse(s - y, 256, 0, s - y);
    } else {
        vstd::arithmetic::div_mod::lemma_fundamental_div_mod_converse(s - y, 256, -1, s - y + 256);
    }
    if y + py < 256 {
        vstd::arithmetic::div_mod::lemma_fundamental_div_mod_converse(y + py, 256, 0, y + py);
    } else {
        vstd::arithmetic::div_mod::lemma_fundamental_div_mod_converse(y + py, 256, 1, y + py - 256);
    }
}

/// Row of the sprite shown on the screen row of frame pixel `i`.
pub open spec fn sprite_row_of(o: ObjInfo, i: int) -> int {
    (i / 240 - o.y) % 256
}

/// Draws row `py` of a sprite, shown on screen row `sy`.
fn draw_sprite_row(
    vram: &[u8],
    palette: &[u8],
    dispcnt: u16,
    o: &ObjInfo,
    py: usize,
    sy: usize,
    pixels: &mut Vec<u32>,
    priorities: &mut Vec<u8>,
)
    requires
        obj_in_range(*o),
        o.visible,
        py < o.height,
        sy < SCREEN_HEIGHT,
        sy == (o.y + py) % 256,
        old(pixels)@.len() == SCREEN_PIXELS,
        old(priorities)@.len() == SCREEN_PIXELS,
    ensures
        final(pixels)@.len() == SCREEN_PIXELS,
        final(priorities)@.len() == SCREEN_PIXELS,
        forall|i: int|
            0 <= i < SCREEN_PIXELS ==> #[trigger] final(pixels)@[i] == if i / 240 == sy {
                draw_over(
                    obj_color(obj_draw(vram@, palette@, dispcnt, *o, i % 240, i / 240)),
                    old(pixels)@[i],
                )
            } else {
                old(pixels)@[i]
            },
        forall|i: int|
            0 <= i < SCREEN_PIXELS ==> #[trigger] final(priorities)@[i] == if i / 240 == sy {
                obj_priority_over(
                    obj_draw(vram@, palette@, dispcnt, *o, i % 240, i / 240),
                    old(priorities)@[i],
                )
            } else {
                old(priorities)@[i]
            },
{
    let ghost before = pixels@;
    let ghost before_p = priorities@;
    proof {
        lemma_row_wrap(sy as int, o.y as int, py as int);
    }
    let lo: usize = if o.x < 0 {
        0
    } else {
        o.x as usize
    };
    let end = o.x + o.width as i32;
    let hi: usize = if end > 240 {
        240
    } else if end < 0 {
        0
    } else {
        end as usize
    };
    let mut sx = lo;
    while sx < hi
        invariant
            obj_in_range(*o),
            o.visible,
            py < o.height,
            sy < SCREEN_HEIGHT,
            (sy - o.y) % 256 == py,
            lo <= sx,
            lo as int == (if o.x < 0 {
                0
            } else {
                o.x as int
            }),
            hi <= 240,
            hi == 0 || hi as int <= o.x + o.width,
            hi == 240 || hi as int >= o.x + o.width,
            pixels@.len() == SCREEN_PIXELS,
            priorities@.len() == SCREEN_PIXELS,
            before.len() == SCREEN_PIXELS,
            before_p.len() == SCREEN_PIXELS,
            forall|i: int|
                0 <= i < SCREEN_PIXELS ==> #[trigger] pixels@[i] == if i / 240 == sy && i % 240
                    < sx {
                    draw_over(
                        obj_color(obj_draw(vram@, palette@, dispcnt, *o, i % 240, i / 240)),
                        before[i],
                    )
                } else {
                    before[i]
                },
            forall|i: int|
                0 <= i < SCREEN_PIXELS ==> #[trigger] priorities@[i] == if i / 240 == sy && i % 240
                    < sx {
                    obj_priority_over(
                        obj_draw(vram@, palette@, dispcnt, *o, i % 240, i / 240),
                        before_p[i],
                    )
                } else {
                    before_p[i]
                },
        decreases hi - sx,
    {
        let px = (sx as i32 - o.x) as usize;
        let ci = obj_texel(vram, dispcnt, o, px, py);
        let k = sy * SCREEN_WIDTH + sx;
        proof {
            lemma_pixel_index(sx as int, sy as int);
        }
        if ci != 0 {
            let pal_index = if o.is_8bpp {
                256 + ci
            } else {
                256 + o.pal_bank * 16 + ci
            };
            pixels.set(k, palette_to_rgb(palette, pal_index));
            priorities.set(k, o.priority);
        }
        sx = sx + 1;
    }
}

/// Draws one sprite into the sprite layer's color and priority buffers.
fn draw_sprite(
    vram: &[u8],
    palette: &[u8],
    dispcnt: u16,
    o: &ObjInfo,
    pixels: &mut Vec<u32>,
    priorities: &mut Vec<u8>,
)
    requires
        obj_in_range(*o),
        old(pixels)@.len() == SCREEN_PIXELS,
        old(priorities)@.len() == SCREEN_PIXELS,
    ensures
        final(pixels)@.len() == SCREEN_PIXELS,
        final(priorities)@.len() == SCREEN_PIXELS,
        forall|i: int|
            0 <= i < SCREEN_PIXELS ==> #[trigger] final(pixels)@[i] == draw_over(
                obj_color(obj_draw(vram@, palette@, dispcnt, *o, i % 240, i / 240)),
                old(pixels)@[i],
            ),
        forall|i: int|
            0 <= i < SCREEN_PIXELS ==> #[trigger] final(priorities)@[i] == obj_priority_over(
                obj_draw(vram@, palette@, dispcnt, *o, i % 240, i / 240),
                old(priorities)@[i],
            ),
{
    if !o.visible {
        return;
    }
    let ghost before = pixels@;
    let ghost before_p = priorities@;
    let mut py: usize = 0;
    while py < o.height
        invariant
            obj_in_range(*o),
            o.visible,
            py <= o.height,
            pixels@.len() == SCREEN_PIXELS,
            priorities@.len() == SCREEN_PIXELS,
            before.len() == SCREEN_PIXELS,
            before_p.len() == SCREEN_PIXELS,
            forall|i: int|
                0 <= i < SCREEN_PIXELS ==> #[trigger] pixels@[i] == if sprite_row_of(*o, i) < py {
                    draw_over(
                        obj_color(obj_draw(vram@, palette@, dispcnt, *o, i % 240, i / 240)),
                        before[i],
                    )
                } else {
                    before[i]
                },
            forall|i: int|
                0 <= i < SCREEN_PIXELS ==> #[trigger] priorities@[i] == if sprite_row_of(*o, i)
                    < py {
                    obj_priority_over(
                        obj_draw(vram@, palette@, dispcnt, *o, i % 240, i / 240),
                        before_p[i],
                    )
                } else {
                    before_p[i]
                },
        decreases o.height - py,
    {
        let sy = (o.y + py) % 256;
        assert forall|i: int| 0 <= i < SCREEN_PIXELS implies ((#[trigger] sprite_row_of(*o, i)
            == py) <==> (i / 240 == sy)) by {
            lemma_row_wrap(i / 240, o.y as int, py as int);
        }
        if sy < SCREEN_HEIGHT {
            draw_sprite_row(vram, palette, dispcnt, o, py, sy, pixels, priorities);
        }
        py = py + 1;
    }
}

/// Draws all 128 sprites into the sprite layer's color and priority
/// buffers; where sprites overlap the lowest-numbered one is on top.
fn render_obj_layer(
    vram: &[u8],
    palette: &[u8],
    oam: &[u8],
    dispcnt: u16,
    pixels: &mut Vec<u32>,
    priorities: &mut Vec<u8>,
)
    requires
        old(pixels)@.len() == SCREEN_PIXELS,
        old(priorities)@.len() == SCREEN_PIXELS,
    ensures
        final(pixels)@.len() == SCREEN_PIXELS,
        final(priorities)@.len() == SCREEN_PIXELS,
        forall|i: int|
            0 <= i < SCREEN_PIXELS ==> #[trigger] final(pixels)@[i] == draw_over(
                obj_color(obj_layer_from(vram@, palette@, oam@, dispcnt, 0, i % 240, i / 240)),
                old(pixels)@[i],
            ),
        forall|i: int|
            0 <= i < SCREEN_PIXELS ==> #[trigger] final(priorities)@[i] == obj_priority_over(
                obj_layer_from(vram@, palette@, oam@, dispcnt, 0, i % 240, i / 240),
                old(priorities)@[i],
            ),
{
    let ghost before = pixels@;
    let ghost before_p = priorities@;
    let mut k: usize = 128;
    while k > 0
        invariant
            k <= 128,
            pixels@.len() == SCREEN_PIXELS,
            priorities@.len() == SCREEN_PIXELS,
            before.len() == SCREEN_PIXELS,
            before_p.len() == SCREEN_PIXELS,
            forall|i: int|
                0 <= i < SCREEN_PIXELS ==> #[trigger] pixels@[i] == draw_over(
                    obj_color(
                        obj_layer_from(vram@, palette@, oam@, dispcnt, k as int, i % 240, i / 240),
                    ),
                    before[i],
                ),
            forall|i: int|
                0 <= i < SCREEN_PIXELS ==> #[trigger] priorities@[i] == obj_priority_over(
                    obj_layer_from(vram@, palette@, oam@, dispcnt, k as int, i % 240, i / 240),
                    before_p[i],
                ),
        decreases k,
    {
        k = k - 1;
        match obj_attributes(oam, k) {
            Some(o) => {
                proof {
                    lemma_obj_info_in_range(oam@, k as int);
                }
                draw_sprite(vram, palette, dispcnt, &o, pixels, priorities);
            },
            None => {},
        }
    }
}

// ---------------------------------------------------------------------------
// Compositing
// ---------------------------------------------------------------------------

/// A layer-buffer pixel: `None` where the layer has nothing.
pub open spec fn opaque(c: u32) -> Option<u32> {
    if c == TRANSPARENT {
        None
    } else {
        Some(c)
    }
}

/// A layer pixel as stored in a layer buffer.
pub open spec fn as_layer_pixel(c: Option<u32>) -> u32 {
    match c {
        Some(v) => v,
        None => TRANSPARENT,
    }
}

/// Blend control (BLDCNT).
pub open spec fn bldcnt(io: Seq<u8>) -> u16 {
    u16_at(io, 0x50)
}

/// First-target alpha coefficient (BLDALPHA bits 0-4, at most 16).
pub open spec fn blend_eva(io: Seq<u8>) -> u32 {
    min_int((u16_at(io, 0x52) & 0x1F) as int, 16) as u32
}

/// Second-target alpha coefficient (BLDALPHA bits 8-12, at most 16).
pub open spec fn blend_evb(io: Seq<u8>) -> u32 {
    min_int(((u16_at(io, 0x52) >> 8u16) & 0x1F) as int, 16) as u32
}

/// Brightness coefficient (BLDY bits 0-4, at most 16).
pub open spec fn blend_evy(io: Seq<u8>) -> u32 {
    min_int((u16_at(io, 0x54) & 0x1F) as int, 16) as u32
}

/// The color shown for a top layer over a second layer, under blend control
/// `bld` and coefficients `eva`, `evb`, `evy`: the effect of `bld` bits 6-7
/// (1 alpha blend, 2 brighten, 3 darken) applies when the top layer is a
/// first target (bits 0-5) and, for an alpha blend, the second layer a
/// second target (bits 8-13).
pub open spec fn blend_with(
    bld: u16,
    eva: u32,
    evb: u32,
    evy: u32,
    top_layer: u8,
    top: u32,
    second_layer: u8,
    second: u32,
) -> u32 {
    let mode = (bld >> 6u16) & 3;
    let first = (bld >> (top_layer as u16)) & 1 == 1;
    let second_target = (bld >> (8 + second_layer) as u16) & 1 == 1;
    if mode == 1 && first && second_target {
        alpha_blend_spec(top, second, eva, evb)
    } else if mode == 2 && first {
        brightness_up_spec(top, evy)
    } else if mode == 3 && first {
        brightness_down_spec(top, evy)
    } else {
        top
    }
}

/// [`blend_with`] under the blend registers of `io`.
pub open spec fn blend_spec(io: Seq<u8>, top_layer: u8, top: u32, second_layer: u8, second: u32) -> u32 {
    blend_with(
        bldcnt(io),
        blend_eva(io),
        blend_evb(io),
        blend_evy(io),
        top_layer,
        top,
        second_layer,
        second,
    )
}

/// The layer in priority slot `key` (0-19) at one pixel, if it is opaque
/// there: slots run through priorities 0 to 3, and within a priority the
/// sprite layer comes first, then backgrounds 0 to 3.
pub open spec fn layer_slot(
    obj: Option<(u32, u8)>,
    bgs: Seq<Option<u32>>,
    prios: Seq<u8>,
    key: int,
) -> Option<(u8, u32)> {
    let p = key / 5;
    let r = key % 5;
    if r == 0 {
        match obj {
            Some(cp) => if cp.1 == p {
                Some((LAYER_OBJ, cp.0))
            } else {
                None
            },
            None => None,
        }
    } else {
        match bgs[r - 1] {
            Some(c) => if prios[r - 1] == p {
                Some(((r - 1) as u8, c))
            } else {
                None
            },
            None => None,
        }
    }
}

/// The `n`-th (from 0) opaque layer in priority order from slot `key` on.
pub open spec fn nth_layer(
    obj: Option<(u32, u8)>,
    bgs: Seq<Option<u32>>,
    prios: Seq<u8>,
    key: int,
    n: nat,
) -> Option<(u8, u32)>
    decreases 20 - key,
{
    if key >= 20 || key < 0 {
        None
    } else {
        match layer_slot(obj, bgs, prios, key) {
            Some(l) => if n == 0 {
                Some(l)
            } else {
                nth_layer(obj, bgs, prios, key + 1, (n - 1) as nat)
            },
            None => nth_layer(obj, bgs, prios, key + 1, n),
        }
    }
}

/// The composited color of one pixel: the topmost opaque layer blended with
/// the next one (or the backdrop); the backdrop alone where no layer is
/// opaque.
pub open spec fn composite_spec(
    io: Seq<u8>,
    obj: Option<(u32, u8)>,
    bgs: Seq<Option<u32>>,
    prios: Seq<u8>,
    backdrop: u32,
) -> u32 {
    match nth_layer(obj, bgs, prios, 0, 0) {
        None => backdrop,
        Some(top) => {
            let second = match nth_layer(obj, bgs, prios, 0, 1) {
                Some(l) => l,
                None => (LAYER_BD, backdrop),
            };
            blend_spec(io, top.0, top.1, second.0, second.1)
        },
    }
}

/// The blend registers, read once per frame.
struct BlendRegs {
    bld: u16,
    eva: u32,
    evb: u32,
    evy: u32,
}

fn read_blend_regs(io: &[u8]) -> (r: BlendRegs)
    requires
        io@.len() >= 0x56,
    ensures
        r.bld == bldcnt(io@),
        r.eva == blend_eva(io@),
        r.evb == blend_evb(io@),
        r.evy == blend_evy(io@),
        r.eva <= 16,
        r.evb <= 16,
        r.evy <= 16,
{
    let bld = read_io_u16(io, 0x50);
    let alpha = read_io_u16(io, 0x52);
    let a = (alpha & 0x1F) as u32;
    let bb = ((alpha >> 8u16) & 0x1F) as u32;
    let y = (read_io_u16(io, 0x54) & 0x1F) as u32;
    BlendRegs {
        bld,
        eva: if a < 16 {
            a
        } else {
            16
        },
        evb: if bb < 16 {
            bb
        } else {
            16
        },
        evy: if y < 16 {
            y
        } else {
            16
        },
    }
}

proof fn lemma_darken_defined(c: u32, evy: u32)
    requires
        evy <= 16,
    ensures
        brightness_down_defined(c, evy),
{
    assert forall|x: int| 0 <= x <= 255 implies #[trigger] (x * evy / 16) <= x by {
        assert(x * evy <= x * 16) by (nonlinear_arith)
            requires
                0 <= x,
                evy <= 16,
        ;
        vstd::arithmetic::div_mod::lemma_div_is_ordered(x * evy, x * 16, 16);
        vstd::arithmetic::div_mod::lemma_div_multiples_vanish(x, 16);
    }
    assert(red(c) * evy / 16 <= red(c));
    assert(green(c) * evy / 16 <= green(c));
    assert(blue(c) * evy / 16 <= blue(c));
}

/// Blends a top layer pixel with the one below it.
fn blend(regs: &BlendRegs, top_layer: u8, top: u32, second_layer: u8, second: u32) -> (c: u32)
    requires
        regs.eva <= 16,
        regs.evb <= 16,
        regs.evy <= 16,
        top_layer <= 5,
        second_layer <= 5,
    ensures
        c == blend_with(
            regs.bld,
            regs.eva,
            regs.evb,
            regs.evy,
            top_layer,
            top,
            second_layer,
            second,
        ),
{
    let mode = (regs.bld >> 6u16) & 3;
    let first = (regs.bld >> (top_layer as u16)) & 1 == 1;
    let second_target = (regs.bld >> (8 + second_layer) as u16) & 1 == 1;
    proof {
        lemma_effects_fit(top, second, regs.eva, regs.evb, regs.evy);
    }
    if mode == 1 && first && second_target {
        alpha_blend(top, second, regs.eva, regs.evb)
    } else if mode == 2 && first {
        brightness_up(top, regs.evy)
    } else if mode == 3 && first {
        brightness_down(top, regs.evy)
    } else {
        top
    }
}

/// A sprite-layer pixel read from its color and priority buffers.
pub open spec fn obj_of(c: u32, p: u8) -> Option<(u32, u8)> {
    if c == TRANSPARENT {
        None
    } else {
        Some((c, p))
    }
}

/// Background-layer pixels read from their buffers.
pub open spec fn bg_opts(cs: Seq<u32>) -> Seq<Option<u32>> {
    Seq::new(cs.len(), |j: int| opaque(cs[j]))
}

fn layer_in_slot(obj_c: u32, obj_p: u8, bgc: &[u32; 4], bgp: &[u8; 4], key: usize) -> (l: Option<
    (u8, u32),
>)
    requires
        key < 20,
    ensures
        l == layer_slot(obj_of(obj_c, obj_p), bg_opts(bgc@), bgp@, key as int),
{
    let p = key / 5;
    let r = key % 5;
    if r == 0 {
        if obj_c != TRANSPARENT && obj_p as usize == p {
            Some((LAYER_OBJ, obj_c))
        } else {
            None
        }
    } else {
        let c = bgc[r - 1];
        if c != TRANSPARENT && bgp[r - 1] as usize == p {
            Some(((r - 1) as u8, c))
        } else {
            None
        }
    }
}

/// The topmost and the second opaque layer at one pixel, in priority order.
fn pick_layers(obj_c: u32, obj_p: u8, bgc: &[u32; 4], bgp: &[u8; 4]) -> (r: (
    Option<(u8, u32)>,
    Option<(u8, u32)>,
))
    ensures
        r.0 == nth_layer(obj_of(obj_c, obj_p), bg_opts(bgc@), bgp@, 0, 0),
        r.1 == nth_layer(obj_of(obj_c, obj_p), bg_opts(bgc@), bgp@, 0, 1),
{
    let ghost obj = obj_of(obj_c, obj_p);
    let ghost bgs = bg_opts(bgc@);
    let mut first: Option<(u8, u32)> = None;
    let mut second: Option<(u8, u32)> = None;
    let mut key: usize = 0;
    while key < 20 && second.is_none()
        invariant
            key <= 20,
            obj == obj_of(obj_c, obj_p),
            bgs == bg_opts(bgc@),
            first is None ==> second is None && nth_layer(obj, bgs, bgp@, 0, 0) == nth_layer(
                obj,
                bgs,
                bgp@,
                key as int,
                0,
            ) && nth_layer(obj, bgs, bgp@, 0, 1) == nth_layer(obj, bgs, bgp@, key as int, 1),
            first is Some ==> first == nth_layer(obj, bgs, bgp@, 0, 0),
            first is Some && second is None ==> nth_layer(obj, bgs, bgp@, 0, 1) == nth_layer(
                obj,
                bgs,
                bgp@,
                key as int,
                0,
            ),
            second is Some ==> second == nth_layer(obj, bgs, bgp@, 0, 1),
        decreases 20 - key,
    {
        let l = layer_in_slot(obj_c, obj_p, bgc, bgp, key);
        assert(nth_layer(obj, bgs, bgp@, key as int, 0) == match l {
            Some(v) => Some(v),
            None => nth_layer(obj, bgs, bgp@, key + 1, 0),
        });
        assert(nth_layer(obj, bgs, bgp@, key as int, 1) == match l {
            Some(v) => nth_layer(obj, bgs, bgp@, key + 1, 0),
            None => nth_layer(obj, bgs, bgp@, key + 1, 1),
        });
        match l {
            Some(v) => {
                if first.is_none() {
                    first = Some(v);
                } else {
                    second = Some(v);
                }
            },
            None => {},
        }
        key = key + 1;
    }
    (first, second)
}

/// Whether `regs` holds the blend registers of `io`.
spec fn regs_of(regs: BlendRegs, io: Seq<u8>) -> bool {
    &&& regs.bld == bldcnt(io)
    &&& regs.eva == blend_eva(io)
    &&& regs.evb == blend_evb(io)
    &&& regs.evy == blend_evy(io)
    &&& regs.eva <= 16
    &&& regs.evb <= 16
    &&& regs.evy <= 16
}

/// The composited color of one pixel from its layer-buffer entries.
fn composite_pixel(
    io: &[u8],
    regs: &BlendRegs,
    obj_c: u32,
    obj_p: u8,
    bgc: &[u32; 4],
    bgp: &[u8; 4],
    backdrop: u32,
) -> (c: u32)
    requires
        regs_of(*regs, io@),
    ensures
        c == composite_spec(io@, obj_of(obj_c, obj_p), bg_opts(bgc@), bgp@, backdrop),
{
    let (top, second) = pick_layers(obj_c, obj_p, bgc, bgp);
    proof {
        lemma_nth_layer_ids(obj_of(obj_c, obj_p), bg_opts(bgc@), bgp@, 0, 0);
        lemma_nth_layer_ids(obj_of(obj_c, obj_p), bg_opts(bgc@), bgp@, 0, 1);
    }
    match top {
        None => backdrop,
        Some(t) => {
            let s = match second {
                Some(l) => l,
                None => (LAYER_BD, backdrop),
            };
            blend(regs, t.0, t.1, s.0, s.1)
        },
    }
}

/// Layers found in the priority slots are sprites (4) or backgrounds (0-3).
proof fn lemma_nth_layer_ids(
    obj: Option<(u32, u8)>,
    bgs: Seq<Option<u32>>,
    prios: Seq<u8>,
    key: int,
    n: nat,
)
    ensures
        nth_layer(obj, bgs, prios, key, n) matches Some(l) ==> l.0 <= 4,
    decreases 20 - key,
{
    if 0 <= key < 20 {
        match layer_slot(obj, bgs, prios, key) {
            Some(l) => if n != 0 {
                lemma_nth_layer_ids(obj, bgs, prios, key + 1, (n - 1) as nat);
            },
            None => {
                lemma_nth_layer_ids(obj, bgs, prios, key + 1, n);
            },
        }
    }
}

// ---------------------------------------------------------------------------
// Frames
// ---------------------------------------------------------------------------

/// Display control (DISPCNT).
pub open spec fn dispcnt_of(io: Seq<u8>) -> u16 {
    u16_at(io, 0)
}

/// Background `bg` is switched on (DISPCNT bits 8-11).
pub open spec fn bg_enabled(dispcnt: u16, bg: int) -> bool {
    dispcnt & (1u16 << (8 + bg) as u16) != 0
}

/// Control register of background `bg` (BGxCNT).
pub open spec fn bgcnt_of(io: Seq<u8>, bg: int) -> u16 {
    u16_at(io, 0x08 + bg * 2)
}

/// Background `bg` of a mode 0 frame at (`x`, `y`): nothing when switched off.
pub open spec fn mode0_bg(vram: Seq<u8>, palette: Seq<u8>, io: Seq<u8>, bg: int, x: int, y: int) -> Option<u32> {
    if bg_enabled(dispcnt_of(io), bg) {
        text_bg_color(vram, palette, io, bg, bgcnt_of(io, bg), x, y)
    } else {
        None
    }
}

/// Priority of background `bg` (BGxCNT bits 0-1; 3 when switched off).
pub open spec fn mode0_prio(io: Seq<u8>, bg: int) -> u8 {
    if bg_enabled(dispcnt_of(io), bg) {
        (bgcnt_of(io, bg) & 3) as u8
    } else {
        3
    }
}

/// The sprite layer at (`x`, `y`): nothing when sprites are switched off
/// (DISPCNT bit 12).
pub open spec fn sprite_layer(
    vram: Seq<u8>,
    palette: Seq<u8>,
    oam: Seq<u8>,
    dispcnt: u16,
    x: int,
    y: int,
) -> Option<(u32, u8)> {
    if dispcnt & 0x1000 != 0 {
        obj_layer_from(vram, palette, oam, dispcnt, 0, x, y)
    } else {
        None
    }
}

/// Pixel (`x`, `y`) of a mode 0 frame: four tiled backgrounds and the
/// sprites composited over the backdrop (palette entry 0).
pub open spec fn mode0_pixel(vram: Seq<u8>, palette: Seq<u8>, oam: Seq<u8>, io: Seq<u8>, x: int, y: int) -> u32 {
    composite_spec(
        io,
        sprite_layer(vram, palette, oam, dispcnt_of(io), x, y),
        Seq::new(4, |b: int| mode0_bg(vram, palette, io, b, x, y)),
        Seq::new(4, |b: int| mode0_prio(io, b)),
        palette_rgb(palette, 0),
    )
}

/// Palette colors use 24 bits, so no color is the transparent marker.
proof fn lemma_palette_rgb_small(palette: Seq<u8>, index: int)
    ensures
        palette_rgb(palette, index) < 0x0100_0000,
{
    if index * 2 + 1 < palette.len() {
        let c = u16_at(palette, index * 2);
        assert(expand5((c % 32) as int) <= 255);
        assert(expand5(((c / 32) % 32) as int) <= 255);
        assert(expand5(((c / 1024) % 32) as int) <= 255);
    }
}

proof fn lemma_text_bg_small(
    vram: Seq<u8>,
    palette: Seq<u8>,
    io: Seq<u8>,
    bg: int,
    bgcnt: u16,
    x: int,
    y: int,
)
    ensures
        text_bg_color(vram, palette, io, bg, bgcnt, x, y) matches Some(c) ==> c < 0x0100_0000,
{
    let (bx, by) = text_bg_pos(io, bg, bgcnt, x, y);
    let se = halfword_at(vram, screen_entry_addr(bgcnt, bx, by));
    lemma_palette_rgb_small(palette, text_tile_index(vram, bgcnt, se, bx, by));
}

proof fn lemma_obj_layer_small(
    vram: Seq<u8>,
    palette: Seq<u8>,
    oam: Seq<u8>,
    dispcnt: u16,
    k: int,
    x: int,
    y: int,
)
    ensures
        obj_layer_from(vram, palette, oam, dispcnt, k, x, y) matches Some(cp) ==> cp.0
            < 0x0100_0000,
    decreases 128 - k,
{
    if 0 <= k < 128 {
        let o = obj_info(oam, k);
        let ci = obj_color_index(vram, dispcnt, o, x - o.x, (y - o.y) % 256);
        lemma_palette_rgb_small(
            palette,
            if o.is_8bpp {
                256 + ci
            } else {
                256 + o.pal_bank * 16 + ci
            },
        );
        lemma_obj_layer_small(vram, palette, oam, dispcnt, k + 1, x, y);
    }
}

/// Background `bg` of a mode 0 frame as a layer buffer.
fn bg_layer(vram: &[u8], palette: &[u8], io: &[u8], dispcnt: u16, bg: usize) -> (layer: Vec<u32>)
    requires
        bg < 4,
        io@.len() >= 0x20,
        dispcnt == dispcnt_of(io@),
    ensures
        layer@.len() == SCREEN_PIXELS,
        forall|i: int|
            0 <= i < SCREEN_PIXELS ==> #[trigger] layer@[i] == as_layer_pixel(
                mode0_bg(vram@, palette@, io@, bg as int, i % 240, i / 240),
            ),
{
    let mut layer = vec![TRANSPARENT; SCREEN_PIXELS];
    if dispcnt & (1u16 << (8 + bg) as u16) != 0 {
        let bgcnt = read_io_u16(io, 0x08 + bg * 2);
        render_text_bg_layer(vram, palette, io, &mut layer, bg, bgcnt);
    }
    layer
}

/// Priority of background `bg` in a mode 0 frame.
fn bg_priority(io: &[u8], dispcnt: u16, bg: usize) -> (p: u8)
    requires
        bg < 4,
        io@.len() >= 0x20,
        dispcnt == dispcnt_of(io@),
    ensures
        p == mode0_prio(io@, bg as int),
{
    if dispcnt & (1u16 << (8 + bg) as u16) != 0 {
        (read_io_u16(io, 0x08 + bg * 2) & 3) as u8
    } else {
        3
    }
}

/// A pixel composited from layer-buffer entries is the mode 0 pixel, when
/// the buffers hold the frame's layers.
proof fn lemma_mode0_pixel(
    vram: Seq<u8>,
    palette: Seq<u8>,
    oam: Seq<u8>,
    io: Seq<u8>,
    x: int,
    y: int,
    obj_c: u32,
    obj_p: u8,
    bgc: Seq<u32>,
    bgp: Seq<u8>,
)
    requires
        bgc.len() == 4,
        bgp.len() == 4,
        forall|b: int|
            0 <= b < 4 ==> #[trigger] bgc[b] == as_layer_pixel(mode0_bg(vram, palette, io, b, x, y)),
        forall|b: int| 0 <= b < 4 ==> #[trigger] bgp[b] == mode0_prio(io, b),
        obj_c == draw_over(
            obj_color(sprite_layer(vram, palette, oam, dispcnt_of(io), x, y)),
            TRANSPARENT,
        ),
        obj_p == obj_priority_over(sprite_layer(vram, palette, oam, dispcnt_of(io), x, y), 3),
    ensures
        composite_spec(io, obj_of(obj_c, obj_p), bg_opts(bgc), bgp, palette_rgb(palette, 0))
            == mode0_pixel(vram, palette, oam, io, x, y),
{
    lemma_obj_layer_small(vram, palette, oam, dispcnt_of(io), 0, x, y);
    assert forall|b: int| 0 <= b < 4 implies #[trigger] bg_opts(bgc)[b] == mode0_bg(
        vram,
        palette,
        io,
        b,
        x,
        y,
    ) by {
        lemma_text_bg_small(vram, palette, io, b, bgcnt_of(io, b), x, y);
    }
    assert(bg_opts(bgc) =~= Seq::new(4, |b: int| mode0_bg(vram, palette, io, b, x, y)));
    assert(bgp =~= Seq::new(4, |b: int| mode0_prio(io, b)));
    assert(obj_of(obj_c, obj_p) == sprite_layer(vram, palette, oam, dispcnt_of(io), x, y));
}

/// A mode 0 frame: tiled backgrounds and sprites, composited and blended.
fn render_composited(vram: &[u8], palette: &[u8], oam: &[u8], io: &[u8], dispcnt: u16) -> (frame:
    Vec<u32>)
    requires
        io@.len() >= 0x56,
        dispcnt == dispcnt_of(io@),
    ensures
        frame@.len() == SCREEN_PIXELS,
        forall|i: int|
            0 <= i < SCREEN_PIXELS ==> #[trigger] frame@[i] == mode0_pixel(
                vram@,
                palette@,
                oam@,
                io@,
                i % 240,
                i / 240,
            ),
{
    let regs = read_blend_regs(io);
    let l0 = bg_layer(vram, palette, io, dispcnt, 0);
    let l1 = bg_layer(vram, palette, io, dispcnt, 1);
    let l2 = bg_layer(vram, palette, io, dispcnt, 2);
    let l3 = bg_layer(vram, palette, io, dispcnt, 3);
    let bgp = [
        bg_priority(io, dispcnt, 0),
        bg_priority(io, dispcnt, 1),
        bg_priority(io, dispcnt, 2),
        bg_priority(io, dispcnt, 3),
    ];
    let mut obj_pixels = vec![TRANSPARENT; SCREEN_PIXELS];
    let mut obj_prio = vec![3u8; SCREEN_PIXELS];
    if dispcnt & 0x1000 != 0 {
        render_obj_layer(vram, palette, oam, dispcnt, &mut obj_pixels, &mut obj_prio);
    }
    let backdrop = palette_to_rgb(palette, 0);
    let mut frame: Vec<u32> = Vec::with_capacity(SCREEN_PIXELS);
    let mut i: usize = 0;
    while i < SCREEN_PIXELS
        invariant
            i <= SCREEN_PIXELS,
            frame@.len() == i,
            regs_of(regs, io@),
            dispcnt == dispcnt_of(io@),
            backdrop == palette_rgb(palette@, 0),
            l0@.len() == SCREEN_PIXELS,
            l1@.len() == SCREEN_PIXELS,
            l2@.len() == SCREEN_PIXELS,
            l3@.len() == SCREEN_PIXELS,
            obj_pixels@.len() == SCREEN_PIXELS,
            obj_prio@.len() == SCREEN_PIXELS,
            forall|b: int| 0 <= b < 4 ==> #[trigger] bgp@[b] == mode0_prio(io@, b),
            forall|j: int|
                0 <= j < SCREEN_PIXELS ==> #[trigger] l0@[j] == as_layer_pixel(
                    mode0_bg(vram@, palette@, io@, 0, j % 240, j / 240),
                ),
            forall|j: int|
                0 <= j < SCREEN_PIXELS ==> #[trigger] l1@[j] == as_layer_pixel(
                    mode0_bg(vram@, palette@, io@, 1, j % 240, j / 240),
                ),
            forall|j: int|
                0 <= j < SCREEN_PIXELS ==> #[trigger] l2@[j] == as_layer_pixel(
                    mode0_bg(vram@, palette@, io@, 2, j % 240, j / 240),
                ),
            forall|j: int|
                0 <= j < SCREEN_PIXELS ==> #[trigger] l3@[j] == as_layer_pixel(
                    mode0_bg(vram@, palette@, io@, 3, j % 240, j / 240),
                ),
            forall|j: int|
                0 <= j < SCREEN_PIXELS ==> #[trigger] obj_pixels@[j] == draw_over(
                    obj_color(sprite_layer(vram@, palette@, oam@, dispcnt, j % 240, j / 240)),
                    TRANSPARENT,
                ),
            forall|j: int|
                0 <= j < SCREEN_PIXELS ==> #[trigger] obj_prio@[j] == obj_priority_over(
                    sprite_layer(vram@, palette@, oam@, dispcnt, j % 240, j / 240),
                    3,
                ),
            forall|j: int|
                0 <= j < i ==> #[trigger] frame@[j] == mode0_pixel(
                    vram@,
                    palette@,
                    oam@,
                    io@,
                    j % 240,
                    j / 240,
                ),
        decreases SCREEN_PIXELS - i,
    {
        let bgc = [l0[i], l1[i], l2[i], l3[i]];
        let c = composite_pixel(io, &regs, obj_pixels[i], obj_prio[i], &bgc, &bgp, backdrop);
        proof {
            assert(bgc@ =~= seq![l0@[i as int], l1@[i as int], l2@[i as int], l3@[i as int]]);
            lemma_mode0_pixel(
                vram@,
                palette@,
                oam@,
                io@,
                i as int % 240,
                i as int / 240,
                obj_pixels@[i as int],
                obj_prio@[i as int],
                bgc@,
                bgp@,
            );
        }
        frame.push(c);
        i = i + 1;
    }
    frame
}

/// Background 2 of a mode 4 frame at (`x`, `y`): a byte per pixel from the
/// page chosen by DISPCNT bit 4 (0 or 0xA000), indexing the palette; index
/// 0 is transparent.
pub open spec fn mode4_bg(vram: Seq<u8>, palette: Seq<u8>, dispcnt: u16, x: int, y: int) -> Option<u32> {
    let page: int = if dispcnt & 0x10 != 0 {
        0xA000
    } else {
        0
    };
    let index = vram_byte(vram, page + y * 240 + x);
    if index == 0 {
        None
    } else {
        Some(palette_rgb(palette, index as int))
    }
}

/// Pixel (`x`, `y`) of a mode 4 frame: the bitmap (priority from BG2CNT) and
/// the sprites, the sprite on top on equal priority, blended with the layer
/// below or the backdrop.
pub open spec fn mode4_pixel(vram: Seq<u8>, palette: Seq<u8>, oam: Seq<u8>, io: Seq<u8>, x: int, y: int) -> u32 {
    let dispcnt = dispcnt_of(io);
    let obj = sprite_layer(vram, palette, oam, dispcnt, x, y);
    let bg = mode4_bg(vram, palette, dispcnt, x, y);
    let bg_prio = (u16_at(io, 0x0C) & 3) as u8;
    let backdrop = palette_rgb(palette, 0);
    match obj {
        Some(o) if bg is None || o.1 <= bg_prio => match bg {
            Some(c) => blend_spec(io, LAYER_OBJ, o.0, LAYER_BG2, c),
            None => blend_spec(io, LAYER_OBJ, o.0, LAYER_BD, backdrop),
        },
        _ => match bg {
            Some(c) => match obj {
                Some(o) => blend_spec(io, LAYER_BG2, c, LAYER_OBJ, o.0),
                None => blend_spec(io, LAYER_BG2, c, LAYER_BD, backdrop),
            },
            None => backdrop,
        },
    }
}

/// Pixel (`x`, `y`) of a mode 3 frame: a BGR555 color per pixel (black
/// past the end of VRAM), brightened or darkened when BG2 is a first target.
pub open spec fn mode3_pixel(vram: Seq<u8>, io: Seq<u8>, x: int, y: int) -> u32 {
    let off = (y * 240 + x) * 2;
    let color = if off + 1 < vram.len() {
        bgr555_rgb(u16_at(vram, off))
    } else {
        0
    };
    let bld = bldcnt(io);
    let mode = (bld >> 6u16) & 3;
    let first = (bld >> 2u16) & 1 == 1;
    if mode == 2 && first {
        brightness_up_spec(color, blend_evy(io))
    } else if mode == 3 && first {
        brightness_down_spec(color, blend_evy(io))
    } else {
        color
    }
}

/// Pixel `i` of a frame, row by row.
pub open spec fn frame_pixel(vram: Seq<u8>, palette: Seq<u8>, oam: Seq<u8>, io: Seq<u8>, i: int) -> u32 {
    let mode = dispcnt_of(io) & 7;
    let x = i % 240;
    let y = i / 240;
    if mode == 0 {
        mode0_pixel(vram, palette, oam, io, x, y)
    } else if mode == 3 {
        mode3_pixel(vram, io, x, y)
    } else if mode == 4 {
        mode4_pixel(vram, palette, oam, io, x, y)
    } else {
        UNSUPPORTED_MODE_COLOR
    }
}

proof fn lemma_pixel_split(i: int)
    requires
        0 <= i,
    ensures
        (i / 240) * 240 + i % 240 == i,
        0 <= i % 240 < 240,
{
    vstd::arithmetic::div_mod::lemma_fundamental_div_mod(i, 240);
}

/// A mode 3 frame: a 16-bit bitmap with brightness effects.
fn render_mode3_blended(vram: &[u8], io: &[u8]) -> (frame: Vec<u32>)
    requires
        io@.len() >= 0x56,
    ensures
        frame@.len() == SCREEN_PIXELS,
        forall|i: int|
            0 <= i < SCREEN_PIXELS ==> #[trigger] frame@[i] == mode3_pixel(
                vram@,
                io@,
                i % 240,
                i / 240,
            ),
{
    let regs = read_blend_regs(io);
    let mode = (regs.bld >> 6u16) & 3;
    let first = (regs.bld >> 2u16) & 1 == 1;
    let mut frame: Vec<u32> = Vec::with_capacity(SCREEN_PIXELS);
    let mut i: usize = 0;
    while i < SCREEN_PIXELS
        invariant
            i <= SCREEN_PIXELS,
            frame@.len() == i,
            regs_of(regs, io@),
            mode == (bldcnt(io@) >> 6u16) & 3,
            first == ((bldcnt(io@) >> 2u16) & 1 == 1),
            forall|j: int|
                0 <= j < i ==> #[trigger] frame@[j] == mode3_pixel(vram@, io@, j % 240, j / 240),
        decreases SCREEN_PIXELS - i,
    {
        proof {
            lemma_pixel_split(i as int);
        }
        let offset = i * 2;
        let color = if offset + 1 < vram.len() {
            bgr555_to_rgb((vram[offset] as u16) | ((vram[offset + 1] as u16) << 8u16))
        } else {
            0
        };
        proof {
            lemma_effects_fit(color, color, regs.eva, regs.evb, regs.evy);
        }
        let c = if mode == 2 && first {
            brightness_up(color, regs.evy)
        } else if mode == 3 && first {
            brightness_down(color, regs.evy)
        } else {
            color
        };
        frame.push(c);
        i = i + 1;
    }
    frame
}

/// Bitmap pixel of a mode 4 frame, as a layer-buffer entry.
fn mode4_bg_pixel(vram: &[u8], palette: &[u8], dispcnt: u16, i: usize) -> (c: u32)
    requires
        i < SCREEN_PIXELS,
    ensures
        c == as_layer_pixel(mode4_bg(vram@, palette@, dispcnt, i as int % 240, i as int / 240)),
{
    proof {
        lemma_pixel_split(i as int);
    }
    let page: usize = if dispcnt & 0x10 != 0 {
        0xA000
    } else {
        0
    };
    let index = byte_or_zero(vram, page + i);
    if index == 0 {
        TRANSPARENT
    } else {
        palette_to_rgb(palette, index as usize)
    }
}

/// The mode 4 pixel from its layer-buffer entries.
fn mode4_composite(
    io: &[u8],
    regs: &BlendRegs,
    obj_c: u32,
    obj_p: u8,
    bg_c: u32,
    bg_prio: u8,
    backdrop: u32,
) -> (c: u32)
    requires
        regs_of(*regs, io@),
    ensures
        c == (match obj_of(obj_c, obj_p) {
            Some(o) if opaque(bg_c) is None || o.1 <= bg_prio => match opaque(bg_c) {
                Some(bc) => blend_spec(io@, LAYER_OBJ, o.0, LAYER_BG2, bc),
                None => blend_spec(io@, LAYER_OBJ, o.0, LAYER_BD, backdrop),
            },
            _ => match opaque(bg_c) {
                Some(bc) => match obj_of(obj_c, obj_p) {
                    Some(o) => blend_spec(io@, LAYER_BG2, bc, LAYER_OBJ, o.0),
                    None => blend_spec(io@, LAYER_BG2, bc, LAYER_BD, backdrop),
                },
                None => backdrop,
            },
        }),
{
    let obj_visible = obj_c != TRANSPARENT;
    let bg_visible = bg_c != TRANSPARENT;
    if obj_visible && (!bg_visible || obj_p <= bg_prio) {
        if bg_visible {
            blend(regs, LAYER_OBJ, obj_c, LAYER_BG2, bg_c)
        } else {
            blend(regs, LAYER_OBJ, obj_c, LAYER_BD, backdrop)
        }
    } else if bg_visible {
        if obj_visible {
            blend(regs, LAYER_BG2, bg_c, LAYER_OBJ, obj_c)
        } else {
            blend(regs, LAYER_BG2, bg_c, LAYER_BD, backdrop)
        }
    } else {
        backdrop
    }
}

/// A mode 4 frame: the paletted bitmap and sprites, composited and blended.
fn render_mode4_blended(vram: &[u8], palette: &[u8], oam: &[u8], io: &[u8], dispcnt: u16) -> (frame:
    Vec<u32>)
    requires
        io@.len() >= 0x56,
        dispcnt == dispcnt_of(io@),
    ensures
        frame@.len() == SCREEN_PIXELS,
        forall|i: int|
            0 <= i < SCREEN_PIXELS ==> #[trigger] frame@[i] == mode4_pixel(
                vram@,
                palette@,
                oam@,
                io@,
                i % 240,
                i / 240,
            ),
{
    let regs = read_blend_regs(io);
    let mut obj_pixels = vec![TRANSPARENT; SCREEN_PIXELS];
    let mut obj_prio = vec![3u8; SCREEN_PIXELS];
    if dispcnt & 0x1000 != 0 {
        render_obj_layer(vram, palette, oam, dispcnt, &mut obj_pixels, &mut obj_prio);
    }
    let backdrop = palette_to_rgb(palette, 0);
    let bg_prio = (read_io_u16(io, 0x0C) & 3) as u8;
    let mut frame: Vec<u32> = Vec::with_capacity(SCREEN_PIXELS);
    let mut i: usize = 0;
    while i < SCREEN_PIXELS
        invariant
            i <= SCREEN_PIXELS,
            frame@.len() == i,
            regs_of(regs, io@),
            dispcnt == dispcnt_of(io@),
            backdrop == palette_rgb(palette@, 0),
            bg_prio == (u16_at(io@, 0x0C) & 3) as u8,
            obj_pixels@.len() == SCREEN_PIXELS,
            obj_prio@.len() == SCREEN_PIXELS,
            forall|j: int|
                0 <= j < SCREEN_PIXELS ==> #[trigger] obj_pixels@[j] == draw_over(
                    obj_color(sprite_layer(vram@, palette@, oam@, dispcnt, j % 240, j / 240)),
                    TRANSPARENT,
                ),
            forall|j: int|
                0 <= j < SCREEN_PIXELS ==> #[trigger] obj_prio@[j] == obj_priority_over(
                    sprite_layer(vram@, palette@, oam@, dispcnt, j % 240, j / 240),
                    3,
                ),
            forall|j: int|
                0 <= j < i ==> #[trigger] frame@[j] == mode4_pixel(
                    vram@,
                    palette@,
                    oam@,
                    io@,
                    j % 240,
                    j / 240,
                ),
        decreases SCREEN_PIXELS - i,
    {
        let bg_c = mode4_bg_pixel(vram, palette, dispcnt, i);
        let c = mode4_composite(io, &regs, obj_pixels[i], obj_prio[i], bg_c, bg_prio, backdrop);
        proof {
            let x = i as int % 240;
            let y = i as int / 240;
            lemma_obj_layer_small(vram@, palette@, oam@, dispcnt, 0, x, y);
            let page: int = if dispcnt & 0x10 != 0 {
                0xA000
            } else {
                0
            };
            lemma_palette_rgb_small(palette@, vram_byte(vram@, page + y * 240 + x) as int);
            assert(obj_of(obj_pixels@[i as int], obj_prio@[i as int]) == sprite_layer(
                vram@,
                palette@,
                oam@,
                dispcnt,
                x,
                y,
            ));
            assert(opaque(bg_c) == mode4_bg(vram@, palette@, dispcnt, x, y));
        }
        frame.push(c);
        i = i + 1;
    }
    frame
}

/// Renders one 240x160 frame of 0x00RRGGBB pixels, row by row, from VRAM,
/// palette RAM, OAM and the I/O registers, in the display mode that
/// DISPCNT selects.
pub fn render_frame(vram: &[u8], palette: &[u8], oam: &[u8], io: &[u8]) -> (frame: Vec<u32>)
    requires
        io@.len() >= 2,
        dispcnt_of(io@) & 7 == 0 || dispcnt_of(io@) & 7 == 3 || dispcnt_of(io@) & 7 == 4
            ==> io@.len() >= 0x56,
    ensures
        frame@.len() == SCREEN_PIXELS,
        forall|i: int|
            0 <= i < SCREEN_PIXELS ==> #[trigger] frame@[i] == frame_pixel(
                vram@,
                palette@,
                oam@,
                io@,
                i,
            ),
{
    let dispcnt = (io[0] as u16) | ((io[1] as u16) << 8u16);
    let mode = dispcnt & 0x7;
    if mode == 0 {
        render_composited(vram, palette, oam, io, dispcnt)
    } else if mode == 3 {
        render_mode3_blended(vram, io)
    } else if mode == 4 {
        render_mode4_blended(vram, palette, oam, io, dispcnt)
    } else {
        vec![UNSUPPORTED_MODE_COLOR; SCREEN_PIXELS]
    }
}

// ---------------------------------------------------------------------------
// Laws of the color effects
// ---------------------------------------------------------------------------

proof fn lemma_channel_ranges(c: u32)
    ensures
        0 <= red(c) <= 255,
        0 <= green(c) <= 255,
        0 <= blue(c) <= 255,
        red(c) * 0x10000 + green(c) * 0x100 + blue(c) == c % 0x0100_0000,
{
    assert(((c / 0x10000) % 0x100) * 0x10000 + ((c / 0x100) % 0x100) * 0x100 + c % 0x100 == c
        % 0x0100_0000) by (bit_vector);
}

/// Full brightening (`evy` = 16) turns every color white.
pub proof fn lemma_brightness_up_full(c: u32)
    ensures
        brightness_up_spec(c, 16) == 0x00FF_FFFF,
{
    lemma_channel_ranges(c);
    vstd::arithmetic::div_mod::lemma_div_multiples_vanish(255 - red(c), 16);
    vstd::arithmetic::div_mod::lemma_div_multiples_vanish(255 - green(c), 16);
    vstd::arithmetic::div_mod::lemma_div_multiples_vanish(255 - blue(c), 16);
    assert((255 - red(c)) * 16 == 16 * (255 - red(c)));
    assert((255 - green(c)) * 16 == 16 * (255 - green(c)));
    assert((255 - blue(c)) * 16 == 16 * (255 - blue(c)));
    lemma_pack_small(255, 255, 255);
}

/// Full darkening (`evy` = 16) turns every color black.
pub proof fn lemma_brightness_down_full(c: u32)
    ensures
        brightness_down_spec(c, 16) == 0,
{
    lemma_channel_ranges(c);
    vstd::arithmetic::div_mod::lemma_div_multiples_vanish(red(c), 16);
    vstd::arithmetic::div_mod::lemma_div_multiples_vanish(green(c), 16);
    vstd::arithmetic::div_mod::lemma_div_multiples_vanish(blue(c), 16);
    assert(red(c) * 16 == 16 * red(c));
    assert(green(c) * 16 == 16 * green(c));
    assert(blue(c) * 16 == 16 * blue(c));
    lemma_pack_small(0, 0, 0);
}

/// With `evy` = 0, brightening and darkening keep the color (its low 24 bits).
pub proof fn lemma_brightness_zero(c: u32)
    ensures
        brightness_up_spec(c, 0) == c % 0x0100_0000,
        brightness_down_spec(c, 0) == c % 0x0100_0000,
{
    lemma_channel_ranges(c);
    lemma_pack_small(red(c) as u32, green(c) as u32, blue(c) as u32);
}

/// Brightening and darkening keep each channel within 0-255 and move it
/// toward white and black respectively.
pub proof fn lemma_brightness_bounds(c: u32, evy: u32)
    requires
        evy <= 16,
    ensures
        brightness_up_spec(c, evy) < 0x0100_0000,
        brightness_down_spec(c, evy) < 0x0100_0000,
        red(brightness_up_spec(c, evy)) >= red(c),
        red(brightness_down_spec(c, evy)) <= red(c),
{
    lemma_channel_ranges(c);
    assert forall|x: int| 0 <= x <= 255 implies 0 <= #[trigger] ((255 - x) * evy / 16) <= 255 - x
        && 0 <= x * evy / 16 <= x by {
        assert((255 - x) * evy <= (255 - x) * 16 && x * evy <= x * 16 && 0 <= (255 - x) * evy && 0
            <= x * evy) by (nonlinear_arith)
            requires
                0 <= x <= 255,
                evy <= 16,
        ;
        vstd::arithmetic::div_mod::lemma_div_is_ordered((255 - x) * evy, (255 - x) * 16, 16);
        vstd::arithmetic::div_mod::lemma_div_multiples_vanish(255 - x, 16);
        vstd::arithmetic::div_mod::lemma_div_is_ordered(x * evy, x * 16, 16);
        vstd::arithmetic::div_mod::lemma_div_multiples_vanish(x, 16);
        vstd::arithmetic::div_mod::lemma_div_pos_is_pos((255 - x) * evy, 16);
        vstd::arithmetic::div_mod::lemma_div_pos_is_pos(x * evy, 16);
    }
    let (r, g, b) = (red(c), green(c), blue(c));
    assert(0 <= (255 - r) * evy / 16 <= 255 - r && 0 <= r * evy / 16 <= r);
    assert(0 <= (255 - g) * evy / 16 <= 255 - g && 0 <= g * evy / 16 <= g);
    assert(0 <= (255 - b) * evy / 16 <= 255 - b && 0 <= b * evy / 16 <= b);
    let (ur, ug, ub) = (
        (r + (255 - r) * evy / 16) as u32,
        (g + (255 - g) * evy / 16) as u32,
        (b + (255 - b) * evy / 16) as u32,
    );
    let (dr, dg, db) = (
        (r - r * evy / 16) as u32,
        (g - g * evy / 16) as u32,
        (b - b * evy / 16) as u32,
    );
    lemma_pack_small(ur, ug, ub);
    lemma_pack_small(dr, dg, db);
    lemma_unpack_small(ur, ug, ub);
    lemma_unpack_small(dr, dg, db);
}

proof fn lemma_unpack_small(r: u32, g: u32, b: u32)
    requires
        r <= 255,
        g <= 255,
        b <= 255,
    ensures
        red((r * 0x10000 + g * 0x100 + b) as u32) == r,
        green((r * 0x10000 + g * 0x100 + b) as u32) == g,
        blue((r * 0x10000 + g * 0x100 + b) as u32) == b,
        r * 0x10000 + g * 0x100 + b < 0x0100_0000,
{
    assert(r <= 255 && g <= 255 && b <= 255 ==> ((((r * 0x10000 + g * 0x100 + b) as u32) / 0x10000)
        % 0x100 == r && ((((r * 0x10000 + g * 0x100 + b) as u32) / 0x100) % 0x100) == g && ((r
        * 0x10000 + g * 0x100 + b) as u32) % 0x100 == b)) by (bit_vector);
}

/// An alpha blend with coefficients 16 and 0 shows the first color alone.
pub proof fn lemma_alpha_blend_first_only(a: u32, b: u32)
    ensures
        alpha_blend_spec(a, b, 16, 0) == a % 0x0100_0000,
{
    lemma_channel_ranges(a);
    vstd::arithmetic::div_mod::lemma_div_multiples_vanish(red(a), 16);
    vstd::arithmetic::div_mod::lemma_div_multiples_vanish(green(a), 16);
    vstd::arithmetic::div_mod::lemma_div_multiples_vanish(blue(a), 16);
    assert(red(a) * 16 == 16 * red(a));
    assert(green(a) * 16 == 16 * green(a));
    assert(blue(a) * 16 == 16 * blue(a));
}

/// Alpha blending is symmetric in its two (color, coefficient) pairs.
pub proof fn lemma_alpha_blend_symmetric(a: u32, b: u32, eva: u32, evb: u32)
    ensures
        alpha_blend_spec(a, b, eva, evb) == alpha_blend_spec(b, a, evb, eva),
{
}

proof fn lemma_alpha_blend_small(a: u32, b: u32, eva: u32, evb: u32)
    ensures
        alpha_blend_spec(a, b, eva, evb) < 0x0100_0000,
{
    lemma_channel_ranges(a);
    lemma_channel_ranges(b);
    assert forall|x: int, y: int| 0 <= x <= 255 && 0 <= y <= 255 implies 0 <= #[trigger] ((x * eva
        + y * evb) / 16) by {
        assert(0 <= x * eva + y * evb) by (nonlinear_arith)
            requires
                0 <= x,
                0 <= y,
        ;
        vstd::arithmetic::div_mod::lemma_div_pos_is_pos(x * eva + y * evb, 16);
    }
    let r = min_int((red(a) * eva + red(b) * evb) / 16, 255);
    let g = min_int((green(a) * eva + green(b) * evb) / 16, 255);
    let bl = min_int((blue(a) * eva + blue(b) * evb) / 16, 255);
    lemma_unpack_small(r as u32, g as u32, bl as u32);
}

proof fn lemma_blend_small(
    bld: u16,
    eva: u32,
    evb: u32,
    evy: u32,
    top_layer: u8,
    top: u32,
    second_layer: u8,
    second: u32,
)
    requires
        evy <= 16,
        top < 0x0100_0000,
    ensures
        blend_with(bld, eva, evb, evy, top_layer, top, second_layer, second) < 0x0100_0000,
{
    lemma_alpha_blend_small(top, second, eva, evb);
    lemma_brightness_bounds(top, evy);
}

proof fn lemma_nth_layer_small(
    obj: Option<(u32, u8)>,
    bgs: Seq<Option<u32>>,
    prios: Seq<u8>,
    key: int,
    n: nat,
)
    requires
        obj matches Some(o) ==> o.0 < 0x0100_0000,
        forall|b: int| 0 <= b < bgs.len() ==> (#[trigger] bgs[b] matches Some(c) ==> c < 0x0100_0000),
        bgs.len() == 4,
    ensures
        nth_layer(obj, bgs, prios, key, n) matches Some(l) ==> l.1 < 0x0100_0000,
    decreases 20 - key,
{
    if 0 <= key < 20 {
        match layer_slot(obj, bgs, prios, key) {
            Some(l) => if n != 0 {
                lemma_nth_layer_small(obj, bgs, prios, key + 1, (n - 1) as nat);
            },
            None => {
                lemma_nth_layer_small(obj, bgs, prios, key + 1, n);
            },
        }
    }
}

/// Every pixel of a rendered frame is a 0x00RRGGBB color: the top byte is
/// clear.
pub proof fn lemma_frame_pixel_rgb(vram: Seq<u8>, palette: Seq<u8>, oam: Seq<u8>, io: Seq<u8>, i: int)
    requires
        0 <= i < SCREEN_PIXELS,
    ensures
        frame_pixel(vram, palette, oam, io, i) < 0x0100_0000,
{
    let mode = dispcnt_of(io) & 7;
    let x = i % 240;
    let y = i / 240;
    let evy = blend_evy(io);
    assert(evy <= 16);
    lemma_palette_rgb_small(palette, 0);
    lemma_obj_layer_small(vram, palette, oam, dispcnt_of(io), 0, x, y);
    if mode == 0 {
        let bgs = Seq::new(4, |b: int| mode0_bg(vram, palette, io, b, x, y));
        let prios = Seq::new(4, |b: int| mode0_prio(io, b));
        let obj = sprite_layer(vram, palette, oam, dispcnt_of(io), x, y);
        assert forall|b: int| 0 <= b < bgs.len() implies (#[trigger] bgs[b] matches Some(c) ==> c
            < 0x0100_0000) by {
            lemma_text_bg_small(vram, palette, io, b, bgcnt_of(io, b), x, y);
        }
        lemma_nth_layer_small(obj, bgs, prios, 0, 0);
        lemma_nth_layer_small(obj, bgs, prios, 0, 1);
        match nth_layer(obj, bgs, prios, 0, 0) {
            Some(top) => {
                let second = match nth_layer(obj, bgs, prios, 0, 1) {
                    Some(l) => l,
                    None => (LAYER_BD, palette_rgb(palette, 0)),
                };
                lemma_blend_small(
                    bldcnt(io),
                    blend_eva(io),
                    blend_evb(io),
                    evy,
                    top.0,
                    top.1,
                    second.0,
                    second.1,
                );
            },
            None => {},
        }
    } else if mode == 3 {
        let off = (y * 240 + x) * 2;
        let color = if off + 1 < vram.len() {
            bgr555_rgb(u16_at(vram, off))
        } else {
            0
        };
        if off + 1 < vram.len() {
            let c = u16_at(vram, off);
            assert(expand5((c % 32) as int) <= 255);
            assert(expand5(((c / 32) % 32) as int) <= 255);
            assert(expand5(((c / 1024) % 32) as int) <= 255);
        }
        lemma_brightness_bounds(color, evy);
    } else if mode == 4 {
        let dispcnt = dispcnt_of(io);
        let page: int = if dispcnt & 0x10 != 0 {
            0xA000
        } else {
            0
        };
        lemma_palette_rgb_small(palette, vram_byte(vram, page + y * 240 + x) as int);
        let backdrop = palette_rgb(palette, 0);
        match sprite_layer(vram, palette, oam, dispcnt, x, y) {
            Some(o) => {
                lemma_blend_small(bldcnt(io), blend_eva(io), blend_evb(io), evy, LAYER_OBJ, o.0, LAYER_BD, backdrop);
            },
            None => {},
        }
        match mode4_bg(vram, palette, dispcnt, x, y) {
            Some(c) => {
                lemma_blend_small(bldcnt(io), blend_eva(io), blend_evb(io), evy, LAYER_BG2, c, LAYER_BD, backdrop);
                match sprite_layer(vram, palette, oam, dispcnt, x, y) {
                    Some(o) => {
                        lemma_blend_small(bldcnt(io), blend_eva(io), blend_evb(io), evy, LAYER_BG2, c, LAYER_OBJ, o.0);
                        lemma_blend_small(bldcnt(io), blend_eva(io), blend_evb(io), evy, LAYER_OBJ, o.0, LAYER_BG2, c);
                    },
                    None => {},
                }
            },
            None => {},
        }
    }
}

// ---------------------------------------------------------------------------
// Laws of layer priority
// ---------------------------------------------------------------------------

proof fn lemma_first_slot(
    obj: Option<(u32, u8)>,
    bgs: Seq<Option<u32>>,
    prios: Seq<u8>,
    key: int,
    k: int,
)
    requires
        0 <= key <= k < 20,
        layer_slot(obj, bgs, prios, k) is Some,
        forall|j: int| key <= j < k ==> (#[trigger] layer_slot(obj, bgs, prios, j)) is None,
    ensures
        nth_layer(obj, bgs, prios, key, 0) == layer_slot(obj, bgs, prios, k),
    decreases k - key,
{
    if key < k {
        assert(layer_slot(obj, bgs, prios, key) is None);
        lemma_first_slot(obj, bgs, prios, key + 1, k);
    }
}

proof fn lemma_no_slot(obj: Option<(u32, u8)>, bgs: Seq<Option<u32>>, prios: Seq<u8>, key: int)
    requires
        0 <= key <= 20,
    ensures
        nth_layer(obj, bgs, prios, key, 0) is None <==> forall|j: int|
            key <= j < 20 ==> (#[trigger] layer_slot(obj, bgs, prios, j)) is None,
    decreases 20 - key,
{
    if key < 20 {
        lemma_no_slot(obj, bgs, prios, key + 1);
        if nth_layer(obj, bgs, prios, key, 0) is None {
            assert forall|j: int| key <= j < 20 implies (#[trigger] layer_slot(
                obj,
                bgs,
                prios,
                j,
            )) is None by {
                if j > key {
                    assert(nth_layer(obj, bgs, prios, key + 1, 0) is None);
                }
            }
        }
    }
}

/// Priorities of a pixel's layers: the sprite layer and each background
/// have a 2-bit priority.
pub open spec fn layers_in_range(obj: Option<(u32, u8)>, bgs: Seq<Option<u32>>, prios: Seq<u8>) -> bool {
    &&& bgs.len() == 4
    &&& prios.len() == 4
    &&& forall|b: int| 0 <= b < 4 ==> #[trigger] prios[b] < 4
    &&& (obj matches Some(o) ==> o.1 < 4)
}

/// Layer priority: a pixel shows the backdrop exactly when no layer is
/// opaque there; an opaque sprite pixel is on top when its priority number
/// is at most that of every opaque background (sprites win ties); an opaque
/// background pixel is on top when its priority number is below the
/// sprite's and below or, for a lower background number, equal to every
/// other opaque background's.
pub proof fn lemma_top_layer(obj: Option<(u32, u8)>, bgs: Seq<Option<u32>>, prios: Seq<u8>)
    requires
        layers_in_range(obj, bgs, prios),
    ensures
        nth_layer(obj, bgs, prios, 0, 0) is None <==> (obj is None && forall|b: int|
            0 <= b < 4 ==> #[trigger] bgs[b] is None),
        obj matches Some(o) ==> ((forall|b: int|
            0 <= b < 4 && #[trigger] bgs[b] is Some ==> o.1 <= prios[b]) ==> nth_layer(
            obj,
            bgs,
            prios,
            0,
            0,
        ) == Some((LAYER_OBJ, o.0))),
        forall|b: int|
            0 <= b < 4 && #[trigger] bgs[b] is Some && (obj matches Some(o) ==> prios[b] < o.1)
                && (forall|b2: int|
                0 <= b2 < 4 && b2 != b && #[trigger] bgs[b2] is Some ==> prios[b] < prios[b2] || (
                prios[b] == prios[b2] && b < b2)) ==> nth_layer(obj, bgs, prios, 0, 0) == Some(
                (b as u8, bgs[b]->0),
            ),
{
    lemma_no_slot(obj, bgs, prios, 0);
    if nth_layer(obj, bgs, prios, 0, 0) is None {
        assert forall|b: int| 0 <= b < 4 implies #[trigger] bgs[b] is None by {
            let k = prios[b] * 5 + b + 1;
            assert(layer_slot(obj, bgs, prios, k) is None);
        }
        if obj is Some {
            assert(layer_slot(obj, bgs, prios, (obj->0).1 * 5) is None);
        }
    }
    if obj is None && forall|b: int| 0 <= b < 4 ==> #[trigger] bgs[b] is None {
        assert forall|j: int| 0 <= j < 20 implies (#[trigger] layer_slot(obj, bgs, prios, j)) is None by {
            assert(bgs[j % 5 - 1] is None || j % 5 == 0);
        }
    }
    match obj {
        Some(o) => {
            if forall|b: int| 0 <= b < 4 && #[trigger] bgs[b] is Some ==> o.1 <= prios[b] {
                let k = o.1 * 5;
                assert forall|j: int| 0 <= j < k implies (#[trigger] layer_slot(
                    obj,
                    bgs,
                    prios,
                    j,
                )) is None by {
                    if j % 5 != 0 {
                        assert(bgs[j % 5 - 1] is Some ==> o.1 <= prios[j % 5 - 1]);
                    }
                }
                lemma_first_slot(obj, bgs, prios, 0, k);
            }
        },
        None => {},
    }
    assert forall|b: int|
        0 <= b < 4 && #[trigger] bgs[b] is Some && (obj matches Some(o) ==> prios[b] < o.1) && (
        forall|b2: int|
            0 <= b2 < 4 && b2 != b && #[trigger] bgs[b2] is Some ==> prios[b] < prios[b2] || (
            prios[b] == prios[b2] && b < b2)) implies nth_layer(obj, bgs, prios, 0, 0) == Some(
        (b as u8, bgs[b]->0),
    ) by {
        let k = prios[b] * 5 + b + 1;
        assert forall|j: int| 0 <= j < k implies (#[trigger] layer_slot(obj, bgs, prios, j)) is None by {
            if j % 5 != 0 {
                let b2 = j % 5 - 1;
                if b2 != b {
                    assert(bgs[b2] is Some ==> prios[b] < prios[b2] || (prios[b] == prios[b2] && b
                        < b2));
                }
            }
        }
        lemma_first_slot(obj, bgs, prios, 0, k);
    }
}

proof fn lemma_obj_layer_prio(
    vram: Seq<u8>,
    palette: Seq<u8>,
    oam: Seq<u8>,
    dispcnt: u16,
    k: int,
    x: int,
    y: int,
)
    ensures
        obj_layer_from(vram, palette, oam, dispcnt, k, x, y) matches Some(cp) ==> cp.1 < 4,
    decreases 128 - k,
{
    if 0 <= k < 128 {
        lemma_obj_info_in_range(oam, k);
        lemma_obj_layer_prio(vram, palette, oam, dispcnt, k + 1, x, y);
    }
}

/// The backgrounds of a mode 0 frame at (`x`, `y`).
pub open spec fn mode0_bgs(vram: Seq<u8>, palette: Seq<u8>, io: Seq<u8>, x: int, y: int) -> Seq<Option<u32>> {
    Seq::new(4, |b: int| mode0_bg(vram, palette, io, b, x, y))
}

/// The background priorities of a mode 0 frame.
pub open spec fn mode0_prios(io: Seq<u8>) -> Seq<u8> {
    Seq::new(4, |b: int| mode0_prio(io, b))
}

/// Layer priority in a mode 0 frame without blend effects (BLDCNT bits 6-7
/// clear): pixel `i` shows the backdrop (palette entry 0) when neither the
/// sprites nor an enabled background is opaque there; the sprite pixel when
/// its priority number is at most that of every opaque background (sprites
/// win ties); and an opaque background's pixel when its priority number is
/// below the sprite's and below, or for a lower background number equal to,
/// every other opaque background's.
pub proof fn lemma_mode0_priority(vram: Seq<u8>, palette: Seq<u8>, oam: Seq<u8>, io: Seq<u8>, i: int)
    requires
        0 <= i < SCREEN_PIXELS,
        dispcnt_of(io) & 7 == 0,
        (bldcnt(io) >> 6u16) & 3 == 0,
    ensures
        (sprite_layer(vram, palette, oam, dispcnt_of(io), i % 240, i / 240) is None && forall|b: int|
            0 <= b < 4 ==> #[trigger] mode0_bgs(vram, palette, io, i % 240, i / 240)[b] is None)
            ==> frame_pixel(vram, palette, oam, io, i) == palette_rgb(palette, 0),
        sprite_layer(vram, palette, oam, dispcnt_of(io), i % 240, i / 240) matches Some(o) ==> ((
        forall|b: int|
            0 <= b < 4 && #[trigger] mode0_bgs(vram, palette, io, i % 240, i / 240)[b] is Some
                ==> o.1 <= mode0_prios(io)[b]) ==> frame_pixel(vram, palette, oam, io, i) == o.0),
        forall|b: int|
            0 <= b < 4 && #[trigger] mode0_bgs(vram, palette, io, i % 240, i / 240)[b] is Some && (
            sprite_layer(vram, palette, oam, dispcnt_of(io), i % 240, i / 240) matches Some(o)
                ==> mode0_prios(io)[b] < o.1) && (forall|b2: int|
                0 <= b2 < 4 && b2 != b && #[trigger] mode0_bgs(
                    vram,
                    palette,
                    io,
                    i % 240,
                    i / 240,
                )[b2] is Some ==> mode0_prios(io)[b] < mode0_prios(io)[b2] || (mode0_prios(io)[b]
                == mode0_prios(io)[b2] && b < b2)) ==> frame_pixel(vram, palette, oam, io, i)
                == mode0_bgs(vram, palette, io, i % 240, i / 240)[b]->0,
{
    let x = i % 240;
    let y = i / 240;
    let obj = sprite_layer(vram, palette, oam, dispcnt_of(io), x, y);
    let bgs = mode0_bgs(vram, palette, io, x, y);
    let prios = mode0_prios(io);
    lemma_obj_layer_prio(vram, palette, oam, dispcnt_of(io), 0, x, y);
    assert forall|b: int| 0 <= b < 4 implies #[trigger] prios[b] < 4 by {
        assert(bgcnt_of(io, b) & 3 <= 3);
    }
    assert(layers_in_range(obj, bgs, prios));
    lemma_top_layer(obj, bgs, prios);
    lemma_nth_layer_ids(obj, bgs, prios, 0, 0);
    assert(bgs =~= Seq::new(4, |b: int| mode0_bg(vram, palette, io, b, x, y)));
    assert(prios =~= Seq::new(4, |b: int| mode0_prio(io, b)));
    assert(frame_pixel(vram, palette, oam, io, i) == composite_spec(
        io,
        obj,
        bgs,
        prios,
        palette_rgb(palette, 0),
    ));
}

} // verus!
