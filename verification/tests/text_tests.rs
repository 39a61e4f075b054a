use turtle_gba::bus::Bus;
use turtle_gba::cpu::{Cpu, R_LR, R_PC, R_SP};
use turtle_gba::disasm::{format_arm, format_thumb};

#[test]
fn arm_text_data_processing() {
    assert_eq!(format_arm(0xE3A0_002A), "MOV R0, #42");
    assert_eq!(format_arm(0xE080_2001), "ADD R2, R0, R1");
    assert_eq!(format_arm(0xE282_2003), "ADD R2, R2, #3");
    assert_eq!(format_arm(0x1150_0101), "CMPNES R0, R1, LSL #2");
    assert_eq!(format_arm(0xE1A0_11A0), "MOV R1, R0, LSR #3");
    assert_eq!(format_arm(0xE3A0_0102), "MOV R0, #2147483648");
    assert_eq!(format_arm(0xE090_2000), "ADDS R2, R0, R0");
}

#[test]
fn arm_text_transfers() {
    assert_eq!(format_arm(0xE59D_1004), "LDR R1, [R13, #4]");
    assert_eq!(format_arm(0xE58D_0000), "STR R0, [R13]");
    assert_eq!(format_arm(0xE8BD_0003), "LDM/STM");
    assert_eq!(format_arm(0x08BD_0003), "LDM/STMEQ");
}

#[test]
fn arm_text_branches() {
    assert_eq!(format_arm(0x1AFF_FFFB), "BNE #-12");
    assert_eq!(format_arm(0xEB00_0010), "BL #+72");
    assert_eq!(format_arm(0xEAFF_FFFE), "B #+0");
}

#[test]
fn arm_text_unknown() {
    assert_eq!(format_arm(0xEF00_0006), "??? 0xEF000006");
    assert_eq!(format_arm(0x0C00_00AB), "??? 0x0C0000AB");
}

#[test]
fn thumb_text() {
    assert_eq!(format_thumb(0x21C8), "T:21C8");
    assert_eq!(format_thumb(0x000A), "T:000A");
}

#[test]
fn skip_bios_sets_post_boot_state() {
    let mut cpu = Cpu::new();
    cpu.skip_bios();
    assert_eq!(cpu.registers[R_PC], 0x0800_0000);
    assert_eq!(cpu.registers[R_SP], 0x0300_7F00);
    assert_eq!(cpu.registers[R_LR], 0x0800_0000);
    assert_eq!(cpu.cpsr, 0x1F);
    assert_eq!(cpu.banked_sp[3], 0x0300_7FE0);
    assert_eq!(cpu.banked_sp[2], 0x0300_7FA0);
}

#[test]
fn tick_keeps_vcount_target() {
    let mut bus = Bus::new();
    bus.write_halfword(0x0400_0004, 0x2A00);
    bus.tick(100_000);
    assert_eq!(bus.read_byte(0x0400_0005), 0x2A);
}
