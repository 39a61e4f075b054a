use turtle_gba::bits::push_u32_le;
use turtle_gba::bmp::{bmp_image, BMP_FILE_SIZE};
use turtle_gba::bus::{Bus, CYCLES_PER_FRAME};
use turtle_gba::cpu::{Cpu, R_PC};
use turtle_gba::disasm::{
    cond_suffix, disassemble_arm, is_move_opcode, is_test_opcode, opcode_name, shift_name, ArmInstr,
    Operand2,
};
use turtle_gba::machine::{
    keyinput_from_buttons, make_test_rom, press_button, run_frame, run_frames, write_word,
    LoopDetector, KEYS_RELEASED,
};
use turtle_gba::ppu::SCREEN_PIXELS;

#[test]
fn write_word_is_little_endian() {
    let mut buf = vec![0xAAu8; 8];
    write_word(&mut buf, 2, 0x1122_3344);
    assert_eq!(buf, vec![0xAA, 0xAA, 0x44, 0x33, 0x22, 0x11, 0xAA, 0xAA]);
}

#[test]
fn push_u32_le_appends_four_bytes() {
    let mut out = vec![7u8];
    push_u32_le(&mut out, 0xDEAD_BEEF);
    assert_eq!(out, vec![7, 0xEF, 0xBE, 0xAD, 0xDE]);
}

#[test]
fn test_rom_layout() {
    let rom = make_test_rom();
    assert_eq!(rom.len(), 0x100);
    // Branch to 0xC0 at the entry point
    assert_eq!(&rom[0..4], &[0x2E, 0x00, 0x00, 0xEA]);
    assert_eq!(&rom[0xA0..0xAC], b"TURTLE TEST\0");
    // First instruction: MOV R0, #0
    assert_eq!(&rom[0xC0..0xC4], &[0x00, 0x00, 0xA0, 0xE3]);
    // Last instruction is the zero word, followed by zero padding
    assert!(rom[0xE8..0x100].iter().all(|&b| b == 0));
}

#[test]
fn test_rom_sums_one_to_ten() {
    let mut bus = Bus::new();
    bus.load_rom(make_test_rom());
    let mut cpu = Cpu::new();
    let mut steps = 0;
    while cpu.step(&mut bus) != 0 {
        steps += 1;
        assert!(steps < 1000);
    }
    assert_eq!(cpu.registers[2], 55);
    assert_eq!(bus.read_word(0x0300_0000), 55);
}

#[test]
fn keyinput_all_released() {
    assert_eq!(keyinput_from_buttons(&[false; 10]), KEYS_RELEASED);
}

#[test]
fn keyinput_a_and_start() {
    let mut pressed = [false; 10];
    pressed[0] = true;
    pressed[3] = true;
    assert_eq!(keyinput_from_buttons(&pressed), 0x03F6);
}

#[test]
fn keyinput_all_pressed() {
    assert_eq!(keyinput_from_buttons(&[true; 10]), 0);
}

#[test]
fn loop_detector_flags_third_repeat() {
    let mut d = LoopDetector::new();
    assert!(!d.observe(0x0800_0000));
    assert!(!d.observe(0x0800_0010));
    assert!(!d.observe(0x0800_0010));
    assert!(!d.observe(0x0800_0010));
    assert!(d.observe(0x0800_0010));
}

#[test]
fn loop_detector_resets_on_new_pc() {
    let mut d = LoopDetector::new();
    d.observe(4);
    d.observe(4);
    d.observe(4);
    assert!(!d.observe(8));
    assert_eq!(d.repeats, 0);
    assert_eq!(d.last_pc, 8);
}

/// A ROM that spins forever on `B .` (branch to itself).
fn spinning_rom() -> Vec<u8> {
    let mut rom = vec![0u8; 16];
    write_word(&mut rom, 0, 0xEAFF_FFFE);
    rom
}

#[test]
fn run_frame_reaches_frame_boundary() {
    let mut bus = Bus::new();
    bus.load_rom(spinning_rom());
    let mut cpu = Cpu::new();
    let start = bus.cycles;
    run_frame(&mut cpu, &mut bus, 0x03FE);
    assert!(bus.cycles.wrapping_sub(start) >= CYCLES_PER_FRAME);
    assert_eq!(bus.keyinput, 0x03FE);
    assert_eq!(cpu.registers[R_PC], 0x0800_0000);
}

#[test]
fn run_frame_after_halt_pads_to_boundary() {
    let mut bus = Bus::new();
    bus.load_rom(vec![0; 16]);
    let mut cpu = Cpu::new();
    run_frame(&mut cpu, &mut bus, KEYS_RELEASED);
    assert_eq!(bus.cycles, CYCLES_PER_FRAME);
}

#[test]
fn run_frames_counts_frames() {
    let mut bus = Bus::new();
    bus.load_rom(vec![0; 16]);
    let mut cpu = Cpu::new();
    run_frames(&mut cpu, &mut bus, KEYS_RELEASED, 3);
    assert_eq!(bus.cycles, 3 * CYCLES_PER_FRAME);
}

#[test]
fn press_button_releases_afterwards() {
    let mut bus = Bus::new();
    bus.load_rom(vec![0; 16]);
    let mut cpu = Cpu::new();
    press_button(&mut cpu, &mut bus, 1 << 3, 2, 1);
    assert_eq!(bus.keyinput, KEYS_RELEASED);
    assert_eq!(bus.cycles, 3 * CYCLES_PER_FRAME);
}

#[test]
fn bmp_header_and_first_pixel() {
    let mut frame = vec![0u32; SCREEN_PIXELS];
    // Bottom-left pixel comes first in the file
    frame[159 * 240] = 0x0011_2233;
    frame[0] = 0x00AA_BBCC;
    let img = bmp_image(&frame);
    assert_eq!(img.len(), BMP_FILE_SIZE);
    assert_eq!(&img[0..2], b"BM");
    assert_eq!(&img[2..6], &115254u32.to_le_bytes());
    assert_eq!(&img[10..14], &54u32.to_le_bytes());
    assert_eq!(&img[14..18], &40u32.to_le_bytes());
    assert_eq!(&img[18..22], &240u32.to_le_bytes());
    assert_eq!(&img[22..26], &160u32.to_le_bytes());
    assert_eq!(&img[26..28], &1u16.to_le_bytes());
    assert_eq!(&img[28..30], &24u16.to_le_bytes());
    assert_eq!(&img[54..57], &[0x33, 0x22, 0x11]);
    // Top-left pixel is the first of the last row
    let last_row = 54 + 159 * 720;
    assert_eq!(&img[last_row..last_row + 3], &[0xCC, 0xBB, 0xAA]);
}

#[test]
fn disassemble_data_processing() {
    match disassemble_arm(0xE3A0_002A) {
        ArmInstr::DataProcessing { cond, opcode, set_flags, rd, operand, .. } => {
            assert_eq!(cond_suffix(cond), "");
            assert_eq!(opcode_name(opcode), "MOV");
            assert!(is_move_opcode(opcode));
            assert!(!set_flags);
            assert_eq!(rd, 0);
            match operand {
                Operand2::Immediate { value } => assert_eq!(value, 42),
                _ => panic!("expected an immediate"),
            }
        }
        _ => panic!("expected data processing"),
    }
}

#[test]
fn disassemble_rotated_immediate() {
    match disassemble_arm(0xE3A0_0102) {
        ArmInstr::DataProcessing { operand: Operand2::Immediate { value }, .. } => {
            assert_eq!(value, 0x8000_0000)
        }
        _ => panic!("expected an immediate operand"),
    }
}

#[test]
fn disassemble_shifted_register() {
    match disassemble_arm(0x1150_0101) {
        ArmInstr::DataProcessing { cond, opcode, set_flags, rn, operand, .. } => {
            assert_eq!(cond_suffix(cond), "NE");
            assert_eq!(opcode_name(opcode), "CMP");
            assert!(is_test_opcode(opcode));
            assert!(set_flags);
            assert_eq!(rn, 0);
            match operand {
                Operand2::Register { rm, shift_type, shift_imm } => {
                    assert_eq!(rm, 1);
                    assert_eq!(shift_name(shift_type), "LSL");
                    assert_eq!(shift_imm, 2);
                }
                _ => panic!("expected a register operand"),
            }
        }
        _ => panic!("expected data processing"),
    }
}

#[test]
fn disassemble_branch_back() {
    match disassemble_arm(0x1AFF_FFFB) {
        ArmInstr::Branch { cond, link, displacement } => {
            assert_eq!(cond_suffix(cond), "NE");
            assert!(!link);
            assert_eq!(displacement, -12);
        }
        _ => panic!("expected a branch"),
    }
}

#[test]
fn disassemble_branch_with_link_forward() {
    match disassemble_arm(0xEB00_0010) {
        ArmInstr::Branch { link, displacement, .. } => {
            assert!(link);
            assert_eq!(displacement, 0x48);
        }
        _ => panic!("expected a branch"),
    }
}

#[test]
fn disassemble_transfers_and_others() {
    match disassemble_arm(0xE59D_1004) {
        ArmInstr::SingleTransfer { load, rn, rd, offset, .. } => {
            assert!(load);
            assert_eq!((rn, rd, offset), (13, 1, 4));
        }
        _ => panic!("expected a load"),
    }
    assert!(matches!(disassemble_arm(0xE8BD_0003), ArmInstr::BlockTransfer { cond: 0xE }));
    assert!(matches!(disassemble_arm(0xEF00_0006), ArmInstr::Unknown { instruction: 0xEF00_0006 }));
}
