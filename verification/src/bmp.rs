//! Encoding a frame as a 24-bit BMP image (for screenshots).
use vstd::prelude::*;
use crate::bits::{le16_bytes, le32_bytes, push_u16_le, push_u32_le};
use crate::ppu::{SCREEN_PIXELS, red, green, blue};

verus! {

/// Bytes of the BMP file and DIB headers.
pub const BMP_HEADER_SIZE: usize = 54;

/// Bytes of one 240-pixel row: 3 per pixel, already a multiple of 4, so rows
/// carry no padding.
pub const BMP_ROW_SIZE: usize = 720;

/// Bytes of a whole 240x160 image.
pub const BMP_FILE_SIZE: usize = 115254;

/// File header ("BM", file size, reserved, pixel data offset) and a 40-byte
/// DIB header (240x160, one plane, 24 bits per pixel, no compression).
pub open spec fn bmp_header() -> Seq<u8> {
    seq![0x42u8, 0x4Du8] + le32_bytes(115254) + seq![0u8, 0u8, 0u8, 0u8] + le32_bytes(54)
        + le32_bytes(40) + le32_bytes(240) + le32_bytes(160) + le16_bytes(1) + le16_bytes(24)
        + Seq::new(24, |i: int| 0u8)
}

/// Byte `p` of the pixel data: rows from the bottom of the frame up, each
/// pixel as blue, green, red.
pub open spec fn bmp_pixel_byte(frame: Seq<u32>, p: int) -> u8 {
    let y = 159 - p / 720;
    let x = (p % 720) / 3;
    let ch = p % 3;
    let rgb = frame[y * 240 + x];
    (if ch == 0 {
        blue(rgb)
    } else if ch == 1 {
        green(rgb)
    } else {
        red(rgb)
    }) as u8
}

/// The BMP file of a frame.
pub open spec fn bmp_image_spec(frame: Seq<u32>) -> Seq<u8> {
    bmp_header() + Seq::new(115200, |p: int| bmp_pixel_byte(frame, p))
}

proof fn lemma_bmp_index(r: int, x: int, ch: int)
    requires
        0 <= r,
        0 <= x < 240,
        0 <= ch < 3,
    ensures
        (r * 720 + x * 3 + ch) / 720 == r,
        ((r * 720 + x * 3 + ch) % 720) / 3 == x,
        (r * 720 + x * 3 + ch) % 3 == ch,
{
    vstd::arithmetic::div_mod::lemma_fundamental_div_mod_converse(r * 720 + x * 3 + ch, 720, r, x * 3 + ch);
    vstd::arithmetic::div_mod::lemma_fundamental_div_mod_converse(x * 3 + ch, 3, x, ch);
    vstd::arithmetic::div_mod::lemma_fundamental_div_mod_converse(
        r * 720 + x * 3 + ch,
        3,
        r * 240 + x,
        ch,
    );
}

/// Encodes a 240x160 frame of 0x00RRGGBB pixels (the first 38400 entries of
/// `frame`) as a BMP file.
pub fn bmp_image(frame: &[u32]) -> (img: Vec<u8>)
    requires
        frame@.len() >= SCREEN_PIXELS,
    ensures
        img@ == bmp_image_spec(frame@),
{
    let mut out: Vec<u8> = Vec::with_capacity(BMP_FILE_SIZE);
    out.push(0x42);
    out.push(0x4D);
    push_u32_le(&mut out, 115254);
    out.push(0);
    out.push(0);
    out.push(0);
    out.push(0);
    push_u32_le(&mut out, 54);
    push_u32_le(&mut out, 40);
    push_u32_le(&mut out, 240);
    push_u32_le(&mut out, 160);
    push_u16_le(&mut out, 1);
    push_u16_le(&mut out, 24);
    let mut z: usize = 0;
    while z < 24
        invariant
            z <= 24,
            out@ == seq![0x42u8, 0x4Du8] + le32_bytes(115254) + seq![0u8, 0u8, 0u8, 0u8]
                + le32_bytes(54) + le32_bytes(40) + le32_bytes(240) + le32_bytes(160) + le16_bytes(
                1,
            ) + le16_bytes(24) + Seq::new(z as nat, |i: int| 0u8),
        decreases 24 - z,
    {
        out.push(0);
        z = z + 1;
        proof {
            assert(out@ =~= seq![0x42u8, 0x4Du8] + le32_bytes(115254) + seq![0u8, 0u8, 0u8, 0u8]
                + le32_bytes(54) + le32_bytes(40) + le32_bytes(240) + le32_bytes(160)
                + le16_bytes(1) + le16_bytes(24) + Seq::new(z as nat, |i: int| 0u8));
        }
    }
    assert(out@ == bmp_header());
    let ghost pixels = Seq::new(115200, |p: int| bmp_pixel_byte(frame@, p));
    let mut r: usize = 0;
    while r < 160
        invariant
            r <= 160,
            frame@.len() >= SCREEN_PIXELS,
            pixels == Seq::new(115200, |p: int| bmp_pixel_byte(frame@, p)),
            out@ == bmp_header() + pixels.take(r * 720),
        decreases 160 - r,
    {
        let y = 159 - r;
        let mut x: usize = 0;
        while x < 240
            invariant
                r < 160,
                y == 159 - r,
                x <= 240,
                frame@.len() >= SCREEN_PIXELS,
                pixels == Seq::new(115200, |p: int| bmp_pixel_byte(frame@, p)),
                out@ == bmp_header() + pixels.take(r * 720 + x * 3),
            decreases 240 - x,
        {
            let rgb = frame[y * 240 + x];
            let p = r * 720 + x * 3;
            proof {
                lemma_bmp_index(r as int, x as int, 0);
                lemma_bmp_index(r as int, x as int, 1);
                lemma_bmp_index(r as int, x as int, 2);
            }
            out.push((rgb % 0x100) as u8);
            out.push(((rgb / 0x100) % 0x100) as u8);
            out.push(((rgb / 0x1_0000) % 0x100) as u8);
            x = x + 1;
            proof {
                assert(pixels[p as int] == (rgb % 0x100) as u8);
                assert(pixels[p + 1] == ((rgb / 0x100) % 0x100) as u8);
                assert(pixels[p + 2] == ((rgb / 0x1_0000) % 0x100) as u8);
                assert(out@ =~= bmp_header() + pixels.take(r * 720 + x * 3));
            }
        }
        r = r + 1;
    }
    assert(pixels.take(115200) =~= pixels);
    out
}

} // verus!
