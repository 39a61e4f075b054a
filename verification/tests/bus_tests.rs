use turtle_gba::bus::Bus;

#[test]
fn read_write_iwram() {
    let mut bus = Bus::new();
    bus.write_byte(0x0300_0000, 0x42);
    assert_eq!(bus.read_byte(0x0300_0000), 0x42);
}

#[test]
fn iwram_is_mirrored() {
    // IWRAM repeats every 32 KB, so these should be the same location
    let mut bus = Bus::new();
    bus.write_byte(0x0300_0000, 0xAB);
    assert_eq!(bus.read_byte(0x0300_8000), 0xAB);
}

#[test]
fn read_write_word_little_endian() {
    let mut bus = Bus::new();
    bus.write_word(0x0200_0000, 0xDEAD_BEEF);
    assert_eq!(bus.read_byte(0x0200_0000), 0xEF);
    assert_eq!(bus.read_byte(0x0200_0001), 0xBE);
    assert_eq!(bus.read_byte(0x0200_0002), 0xAD);
    assert_eq!(bus.read_byte(0x0200_0003), 0xDE);
    assert_eq!(bus.read_word(0x0200_0000), 0xDEAD_BEEF);
}

#[test]
fn bios_is_read_only() {
    let mut bus = Bus::new();
    bus.write_byte(0x0000_0000, 0xFF);
    assert_eq!(bus.read_byte(0x0000_0000), 0);
}

#[test]
fn keyinput_defaults_all_released() {
    let bus = Bus::new();
    assert_eq!(bus.read_byte(0x0400_0130), 0xFF);
    assert_eq!(bus.read_byte(0x0400_0131), 0x03);
    assert_eq!(bus.read_halfword(0x0400_0130), 0x03FF);
}

#[test]
fn dma3_immediate_copy() {
    let mut bus = Bus::new();
    bus.write_word(0x0200_0000, 0xDEAD_BEEF);
    bus.write_word(0x0200_0004, 0xCAFE_BABE);

    // DMA3: SAD = 0x02000000, DAD = 0x03000000, count = 2, 32-bit, immediate
    bus.write_word(0x0400_00D4, 0x0200_0000);
    bus.write_word(0x0400_00D8, 0x0300_0000);
    bus.write_halfword(0x0400_00DC, 2);
    bus.write_halfword(0x0400_00DE, 0x8400);

    assert_eq!(bus.read_word(0x0300_0000), 0xDEAD_BEEF);
    assert_eq!(bus.read_word(0x0300_0004), 0xCAFE_BABE);
    // An immediate transfer without repeat turns the channel off
    assert_eq!(bus.read_halfword(0x0400_00DE) & 0x8000, 0);
}

#[test]
fn dma3_halfword_fill() {
    let mut bus = Bus::new();
    bus.write_halfword(0x0200_0000, 0x1234);

    // DMA3: 16-bit, fixed source, incrementing destination, 4 units
    bus.write_word(0x0400_00D4, 0x0200_0000);
    bus.write_word(0x0400_00D8, 0x0300_0000);
    bus.write_halfword(0x0400_00DC, 4);
    bus.write_halfword(0x0400_00DE, 0x8100);

    for i in 0..4u32 {
        assert_eq!(bus.read_halfword(0x0300_0000 + i * 2), 0x1234, "halfword at offset {} wrong", i);
    }
}

#[test]
fn keyinput_reflects_pressed_buttons() {
    let mut bus = Bus::new();
    // Press A (bit 0) and Start (bit 3)
    bus.keyinput = 0x03FF & !(1 << 0) & !(1 << 3);
    assert_eq!(bus.read_halfword(0x0400_0130), 0x03F6);
}

#[test]
fn rom_read() {
    let mut bus = Bus::new();
    bus.load_rom(vec![0x01, 0x02, 0x03, 0x04]);
    assert_eq!(bus.read_byte(0x0800_0000), 0x01);
    assert_eq!(bus.read_word(0x0800_0000), 0x04030201);
}
