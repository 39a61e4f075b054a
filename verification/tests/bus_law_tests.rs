use turtle_gba::bus::Bus;
use turtle_gba::machine::write_word;
use turtle_gba::ppu::alpha_blend;

#[test]
fn ewram_is_mirrored() {
    let mut bus = Bus::new();
    bus.write_byte(0x0200_0010, 0x5A);
    assert_eq!(bus.read_byte(0x0204_0010), 0x5A);
    assert_eq!(bus.read_byte(0x02FC_0010), 0x5A);
}

#[test]
fn vram_upper_block_mirrors() {
    let mut bus = Bus::new();
    bus.write_byte(0x0601_0004, 0x77);
    assert_eq!(bus.read_byte(0x0601_8004), 0x77);
    assert_eq!(bus.read_byte(0x0603_0004), 0x77);
}

#[test]
fn rom_is_mirrored_three_times() {
    let mut bus = Bus::new();
    bus.load_rom(vec![1, 2, 3, 4]);
    assert_eq!(bus.read_word(0x0A00_0000), 0x0403_0201);
    assert_eq!(bus.read_word(0x0C00_0000), 0x0403_0201);
    assert_eq!(bus.read_byte(0x0800_0004), 0);
}

#[test]
fn rom_ignores_writes() {
    let mut bus = Bus::new();
    bus.load_rom(vec![9; 8]);
    bus.write_word(0x0800_0000, 0);
    assert_eq!(bus.read_word(0x0800_0000), 0x0909_0909);
}

#[test]
fn word_built_little_endian_reads_back() {
    let mut rom = vec![0u8; 8];
    write_word(&mut rom, 4, 0x89AB_CDEF);
    let mut bus = Bus::new();
    bus.load_rom(rom);
    assert_eq!(bus.read_word(0x0800_0004), 0x89AB_CDEF);
}

#[test]
fn tick_advances_clock() {
    let mut bus = Bus::new();
    bus.tick(100);
    assert_eq!(bus.cycles, 100);
    bus.tick(1232);
    assert_eq!(bus.cycles, 1332);
}

#[test]
fn vblank_raises_display_status() {
    let mut bus = Bus::new();
    // 160 scanlines of 1232 cycles reach VBlank
    for _ in 0..160 {
        bus.tick(1232);
    }
    assert_eq!(bus.read_halfword(0x0400_0004) & 1, 1);
    assert_eq!(bus.read_halfword(0x0400_0006), 160);
}

#[test]
fn alpha_blend_is_symmetric() {
    assert_eq!(
        alpha_blend(0x0010_2030, 0x00F0_E0D0, 5, 11),
        alpha_blend(0x00F0_E0D0, 0x0010_2030, 11, 5)
    );
}
