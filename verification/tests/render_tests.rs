use turtle_gba::ppu::{
    alpha_blend, brightness_down, brightness_up, palette_to_rgb, read_io_u16, render_frame,
    SCREEN_PIXELS, UNSUPPORTED_MODE_COLOR,
};

struct Video {
    vram: Vec<u8>,
    palette: Vec<u8>,
    oam: Vec<u8>,
    io: Vec<u8>,
}

impl Video {
    fn new() -> Video {
        Video { vram: vec![0; 0x18000], palette: vec![0; 0x400], oam: vec![0; 0x400], io: vec![0; 0x400] }
    }

    fn set_io16(&mut self, off: usize, v: u16) {
        self.io[off] = v as u8;
        self.io[off + 1] = (v >> 8) as u8;
    }

    fn set_palette(&mut self, index: usize, bgr555: u16) {
        self.palette[index * 2] = bgr555 as u8;
        self.palette[index * 2 + 1] = (bgr555 >> 8) as u8;
    }

    /// Hides every sprite but the first.
    fn hide_sprites_after_first(&mut self) {
        for k in 1..128 {
            self.oam[k * 8 + 1] = 0x02;
        }
    }

    fn render(&self) -> Vec<u32> {
        render_frame(&self.vram, &self.palette, &self.oam, &self.io)
    }
}

#[test]
fn unsupported_mode_is_grey() {
    let mut v = Video::new();
    v.set_io16(0, 1);
    let frame = v.render();
    assert_eq!(frame.len(), SCREEN_PIXELS);
    assert!(frame.iter().all(|&p| p == UNSUPPORTED_MODE_COLOR));
}

#[test]
fn mode3_shows_bitmap_colors() {
    let mut v = Video::new();
    v.set_io16(0, 3);
    v.vram[0] = 0x1F; // red
    v.vram[2 * 241] = 0x00;
    v.vram[2 * 241 + 1] = 0x7C; // blue at (1, 1)
    let frame = v.render();
    assert_eq!(frame[0], 0x00FF_0000);
    assert_eq!(frame[241], 0x0000_00FF);
    assert_eq!(frame[1], 0);
}

#[test]
fn mode3_full_brightening_is_white() {
    let mut v = Video::new();
    v.set_io16(0, 3);
    v.set_io16(0x50, 0x0084); // brighten, BG2 first target
    v.set_io16(0x54, 16);
    let frame = v.render();
    assert!(frame.iter().all(|&p| p == 0x00FF_FFFF));
}

#[test]
fn mode3_alpha_mode_has_no_effect() {
    let mut v = Video::new();
    v.set_io16(0, 3);
    v.set_io16(0x50, 0x0044);
    v.set_io16(0x52, 0x0808);
    v.vram[0] = 0x1F;
    assert_eq!(v.render()[0], 0x00FF_0000);
}

#[test]
fn mode4_uses_palette_and_page() {
    let mut v = Video::new();
    v.set_io16(0, 4);
    v.set_palette(0, 0x0000);
    v.set_palette(1, 0x7FFF);
    v.set_palette(2, 0x03E0);
    v.vram[0] = 1;
    v.vram[0xA000] = 2;
    let frame = v.render();
    assert_eq!(frame[0], 0x00FF_FFFF);
    assert_eq!(frame[1], 0);
    // The second page is shown when DISPCNT bit 4 is set
    v.set_io16(0, 4 | 0x10);
    assert_eq!(v.render()[0], 0x0000_FF00);
}

#[test]
fn mode4_backdrop_is_palette_zero() {
    let mut v = Video::new();
    v.set_io16(0, 4);
    v.set_palette(0, 0x001F);
    assert!(v.render().iter().all(|&p| p == 0x00FF_0000));
}

/// Mode 0 with background 0 on: screen blocks from 0x4000 (block 8),
/// tile 1 drawing color 1 in its top-left two pixels.
fn mode0_scene() -> Video {
    let mut v = Video::new();
    v.set_io16(0, 0x0100);
    v.set_io16(0x08, 0x0800);
    v.vram[0x4000] = 1; // screen entry (0, 0): tile 1
    v.vram[32] = 0x11; // tile 1, row 0: pixels 0 and 1 use color 1
    v.set_palette(1, 0x001F); // red
    v
}

#[test]
fn mode0_text_background() {
    let v = mode0_scene();
    let frame = v.render();
    assert_eq!(frame[0], 0x00FF_0000);
    assert_eq!(frame[1], 0x00FF_0000);
    assert_eq!(frame[2], 0);
    assert_eq!(frame[240], 0);
}

#[test]
fn mode0_scrolling_moves_background() {
    let mut v = mode0_scene();
    v.set_io16(0x10, 255); // BG0HOFS = 255: the map wraps around at 256 pixels
    let frame = v.render();
    assert_eq!(frame[0], 0);
    assert_eq!(frame[1], 0x00FF_0000);
    assert_eq!(frame[2], 0x00FF_0000);
    assert_eq!(frame[3], 0);
}

#[test]
fn mode0_horizontal_flip() {
    let mut v = mode0_scene();
    v.vram[0x4001] = 0x04; // h-flip the entry
    let frame = v.render();
    assert_eq!(frame[0], 0);
    assert_eq!(frame[6], 0x00FF_0000);
    assert_eq!(frame[7], 0x00FF_0000);
}

#[test]
fn mode0_disabled_background_shows_backdrop() {
    let mut v = mode0_scene();
    v.set_io16(0, 0);
    v.set_palette(0, 0x03E0);
    assert!(v.render().iter().all(|&p| p == 0x0000_FF00));
}

/// Adds sprite 0 at (0, 0), 8x8, 4 bits per pixel, tile 0, drawing color 2
/// of sprite palette 0 in its two top-left pixels.
fn add_sprite(v: &mut Video) {
    let dispcnt = read_io_u16(&v.io, 0) | 0x1000;
    v.set_io16(0, dispcnt);
    v.hide_sprites_after_first();
    v.vram[0x10000] = 0x22;
    v.set_palette(256 + 2, 0x03E0); // green
}

#[test]
fn sprite_wins_priority_tie() {
    let mut v = mode0_scene();
    add_sprite(&mut v);
    let frame = v.render();
    assert_eq!(frame[0], 0x0000_FF00);
    assert_eq!(frame[1], 0x0000_FF00);
    assert_eq!(frame[2], 0);
}

#[test]
fn background_with_higher_priority_covers_sprite() {
    let mut v = mode0_scene();
    add_sprite(&mut v);
    v.oam[5] = 0x04; // sprite priority 1
    let frame = v.render();
    assert_eq!(frame[0], 0x00FF_0000);
}

#[test]
fn sprite_alpha_blends_with_background() {
    let mut v = mode0_scene();
    add_sprite(&mut v);
    v.set_io16(0x50, 0x0150); // alpha, OBJ first target, BG0 second target
    v.set_io16(0x52, 0x0808);
    let frame = v.render();
    assert_eq!(frame[0], 0x007F_7F00);
}

#[test]
fn sprite_hidden_mode_draws_nothing() {
    let mut v = mode0_scene();
    add_sprite(&mut v);
    v.oam[1] = 0x02;
    assert_eq!(v.render()[0], 0x00FF_0000);
}

#[test]
fn sprite_over_mode4_bitmap() {
    let mut v = Video::new();
    v.set_io16(0, 4);
    v.set_palette(1, 0x7FFF);
    v.vram[0] = 1;
    v.vram[2] = 1;
    add_sprite(&mut v);
    let frame = v.render();
    assert_eq!(frame[0], 0x0000_FF00);
    assert_eq!(frame[2], 0x00FF_FFFF);
}

#[test]
fn mode0_darkening_halves() {
    let mut v = mode0_scene();
    v.set_io16(0x50, 0x00C1); // darken, BG0 first target
    v.set_io16(0x54, 8);
    assert_eq!(v.render()[0], 0x0080_0000);
}

#[test]
fn brightness_zero_keeps_color() {
    assert_eq!(brightness_up(0x0012_3456, 0), 0x0012_3456);
    assert_eq!(brightness_down(0x0012_3456, 0), 0x0012_3456);
}

#[test]
fn brightness_half_steps() {
    assert_eq!(brightness_up(0x0000_0000, 8), 0x007F_7F7F);
    assert_eq!(brightness_down(0x00FF_FFFF, 8), 0x0080_8080);
}

#[test]
fn alpha_blend_first_only_and_saturation() {
    assert_eq!(alpha_blend(0x00AB_CDEF, 0x0012_3456, 16, 0), 0x00AB_CDEF);
    assert_eq!(alpha_blend(0x00FF_FFFF, 0x00FF_FFFF, 16, 16), 0x00FF_FFFF);
}

#[test]
fn palette_past_end_is_black() {
    let palette = vec![0xFFu8; 4];
    assert_eq!(palette_to_rgb(&palette, 1), 0x00FF_FFFF);
    assert_eq!(palette_to_rgb(&palette, 2), 0);
}

#[test]
fn every_rendered_pixel_is_rgb() {
    let mut v = mode0_scene();
    add_sprite(&mut v);
    v.set_io16(0x50, 0x00FF);
    v.set_io16(0x54, 31);
    assert!(v.render().iter().all(|&p| p < 0x0100_0000));
}
