use turtle_gba::bmp::{bmp_image, BMP_FILE_SIZE};
use turtle_gba::bus::Bus;
use turtle_gba::ppu::SCREEN_PIXELS;

#[test]
fn dma_latch_masks_addresses_on_rising_edge() {
    let mut bus = Bus::new();
    bus.write_word(0x0400_00B0, 0xFFFF_FFFF); // DMA0 SAD
    bus.write_word(0x0400_00B4, 0xFFFF_FFFF); // DMA0 DAD
    bus.write_halfword(0x0400_00B8, 7);
    bus.write_halfword(0x0400_00BA, 0x9000); // enable, VBlank timing
    assert_eq!(bus.dma[0].sad, 0x07FF_FFFF);
    assert_eq!(bus.dma[0].dad, 0x07FF_FFFF);
    assert_eq!(bus.dma[0].count, 7);
    assert_eq!(bus.dma[0].internal_sad, 0x07FF_FFFF);
    // Rewriting the control of an enabled channel latches nothing new
    bus.write_word(0x0400_00B0, 0x0200_0000);
    bus.write_halfword(0x0400_00BA, 0x9200);
    assert_eq!(bus.dma[0].sad, 0x07FF_FFFF);
    assert_eq!(bus.dma[0].control, 0x9200);
}

#[test]
fn dma_transfer_moves_running_addresses() {
    let mut bus = Bus::new();
    bus.write_word(0x0400_00D4, 0x0200_0000);
    bus.write_word(0x0400_00D8, 0x0300_0100);
    bus.write_halfword(0x0400_00DC, 3);
    // 32-bit, source increment, destination decrement, immediate
    bus.write_halfword(0x0400_00DE, 0x8420);
    assert_eq!(bus.dma[3].internal_sad, 0x0200_000C);
    assert_eq!(bus.dma[3].internal_dad, 0x0300_00F4);
    assert_eq!(bus.dma[3].sad, 0x0200_0000);
    assert_eq!(bus.dma[3].control & 0x8000, 0);
}

#[test]
fn dma_copies_units_in_order() {
    let mut bus = Bus::new();
    for i in 0..3u32 {
        bus.write_word(0x0200_0000 + 4 * i, 0x1111_1111 * (i + 1));
    }
    bus.write_word(0x0300_0100, 0xDEAD_BEEF);
    bus.write_word(0x0400_00D4, 0x0200_0000);
    bus.write_word(0x0400_00D8, 0x0300_0100);
    bus.write_halfword(0x0400_00DC, 3);
    // 32-bit, source increment, destination decrement, immediate
    bus.write_halfword(0x0400_00DE, 0x8420);
    assert_eq!(bus.read_word(0x0300_0100), 0x1111_1111);
    assert_eq!(bus.read_word(0x0300_00FC), 0x2222_2222);
    assert_eq!(bus.read_word(0x0300_00F8), 0x3333_3333);
    // the word below the last unit is untouched
    assert_eq!(bus.read_word(0x0300_00F4), 0);
    // 16-bit units from EWRAM to IWRAM
    bus.write_halfword(0x0200_0100, 0xABCD);
    bus.write_halfword(0x0200_0102, 0x1234);
    bus.write_word(0x0400_00D4, 0x0200_0100);
    bus.write_word(0x0400_00D8, 0x0300_0200);
    bus.write_halfword(0x0400_00DC, 2);
    bus.write_halfword(0x0400_00DE, 0x8000);
    assert_eq!(bus.read_halfword(0x0300_0200), 0xABCD);
    assert_eq!(bus.read_halfword(0x0300_0202), 0x1234);
}

#[test]
fn repeating_vblank_dma_stays_enabled() {
    let mut bus = Bus::new();
    bus.write_halfword(0x0200_0000, 0xBEEF);
    bus.write_word(0x0400_00C8, 0x0200_0000); // DMA2 SAD
    bus.write_word(0x0400_00CC, 0x0300_0000); // DMA2 DAD
    bus.write_halfword(0x0400_00D0, 1);
    // enable, VBlank timing, repeat, destination increment/reload
    bus.write_halfword(0x0400_00D2, 0x9260);
    assert_eq!(bus.read_halfword(0x0300_0000), 0);
    bus.check_vblank_dma();
    assert_eq!(bus.read_halfword(0x0300_0000), 0xBEEF);
    assert_eq!(bus.dma[2].control & 0x8000, 0x8000);
    assert_eq!(bus.dma[2].internal_dad, 0x0300_0000);
    assert_eq!(bus.dma[2].internal_sad, 0x0200_0002);
}

#[test]
fn hblank_dma_is_not_run_by_vblank() {
    let mut bus = Bus::new();
    bus.write_halfword(0x0200_0000, 0x1234);
    bus.write_word(0x0400_00D4, 0x0200_0000);
    bus.write_word(0x0400_00D8, 0x0300_0000);
    bus.write_halfword(0x0400_00DC, 1);
    bus.write_halfword(0x0400_00DE, 0xA000); // enable, HBlank timing
    bus.check_vblank_dma();
    assert_eq!(bus.read_halfword(0x0300_0000), 0);
    bus.check_hblank_dma();
    assert_eq!(bus.read_halfword(0x0300_0000), 0x1234);
    assert_eq!(bus.dma[3].control & 0x8000, 0);
}

#[test]
fn vblank_interrupt_flag_raised_once_per_blank() {
    let mut bus = Bus::new();
    bus.write_halfword(0x0400_0004, 0x0008); // VBlank IRQ enable
    bus.tick(160 * 1232);
    assert_eq!(bus.read_halfword(0x0400_0202) & 1, 1);
    bus.write_halfword(0x0400_0202, 1); // acknowledge
    assert_eq!(bus.read_halfword(0x0400_0202) & 1, 0);
    bus.tick(1232); // still in VBlank: no new rising edge
    assert_eq!(bus.read_halfword(0x0400_0202) & 1, 0);
    assert_eq!(bus.read_halfword(0x0400_0004) & 0x0F, 0x09);
}

#[test]
fn vblank_with_dma_keeps_display_laws() {
    let mut bus = Bus::new();
    bus.write_halfword(0x0200_0000, 0x5A5A);
    bus.write_word(0x0400_00B0, 0x0200_0000); // DMA0 SAD
    bus.write_word(0x0400_00B4, 0x0300_0000); // DMA0 DAD
    bus.write_halfword(0x0400_00B8, 1);
    bus.write_halfword(0x0400_00BA, 0x9000); // enable, VBlank timing
    bus.write_halfword(0x0400_0004, 0xA008); // VBlank IRQ enable, target line 160
    bus.tick(160 * 1232);
    // the transfer ran once, at the rising edge
    assert_eq!(bus.read_halfword(0x0300_0000), 0x5A5A);
    assert_eq!(bus.dma[0].control & 0x8000, 0);
    // the display registers and IF follow the tick as without DMA
    assert_eq!(bus.read_halfword(0x0400_0006), 160);
    assert_eq!(bus.read_halfword(0x0400_0004), 0xA00D);
    assert_eq!(bus.read_halfword(0x0400_0202) & 1, 1);
    // the transfer's source and target stay as written
    assert_eq!(bus.read_word(0x0400_00B0), 0x0200_0000);
}

#[test]
fn hblank_and_vcount_match_bits() {
    let mut bus = Bus::new();
    bus.write_halfword(0x0400_0004, 0x0530); // HBlank and VCount IRQ enable, target line 5
    bus.tick(5 * 1232 + 960);
    let dispstat = bus.read_halfword(0x0400_0004);
    assert_eq!(dispstat & 0x07, 0x06);
    assert_eq!(dispstat & 0xFF38, 0x0530);
    assert_eq!(bus.read_halfword(0x0400_0006), 5);
    assert_eq!(bus.read_halfword(0x0400_0202) & 0x06, 0x06);
}

#[test]
fn bmp_accepts_longer_buffers() {
    let mut frame = vec![0u32; SCREEN_PIXELS + 10];
    frame[SCREEN_PIXELS] = 0x00FF_FFFF;
    let img = bmp_image(&frame);
    assert_eq!(img.len(), BMP_FILE_SIZE);
    assert!(img[54..].iter().all(|&b| b == 0));
}
