use turtle_gba::bus::Bus;
use turtle_gba::cpu::{Cpu, CPSR_Z, R_PC, R_SP};

/// Loads the instructions as ROM, followed by zero words, and steps the CPU
/// until it halts on a zero word.
fn run_program(instructions: &[u32]) -> (Cpu, Bus) {
    let mut bus = Bus::new();
    let mut rom = Vec::new();
    for &inst in instructions {
        rom.extend_from_slice(&inst.to_le_bytes());
    }
    rom.extend_from_slice(&[0; 16]);
    bus.load_rom(rom);

    let mut cpu = Cpu::new();
    while cpu.step(&mut bus) != 0 {}
    (cpu, bus)
}

#[test]
fn cpu_starts_at_rom_entry() {
    let cpu = Cpu::new();
    assert_eq!(cpu.registers[R_PC], 0x0800_0000);
}

#[test]
fn cpu_stack_pointer_initialized() {
    let cpu = Cpu::new();
    assert_eq!(cpu.registers[R_SP], 0x0300_7F00);
}

#[test]
fn flags_start_clear() {
    let cpu = Cpu::new();
    assert!(!cpu.flag_z());
    assert!(!cpu.flag_n());
    assert!(!cpu.flag_c());
    assert!(!cpu.flag_v());
}

#[test]
fn can_set_and_clear_flags() {
    let mut cpu = Cpu::new();
    cpu.set_flag(CPSR_Z, true);
    assert!(cpu.flag_z());
    assert!(!cpu.flag_n());
    cpu.set_flag(CPSR_Z, false);
    assert!(!cpu.flag_z());
}

#[test]
fn mov_immediate() {
    let (cpu, _) = run_program(&[0xE3A0_002A]); // MOV R0, #42
    assert_eq!(cpu.registers[0], 42);
}

#[test]
fn add_registers() {
    let (cpu, _) = run_program(&[
        0xE3A0_000A, // MOV R0, #10
        0xE3A0_1014, // MOV R1, #20
        0xE080_2001, // ADD R2, R0, R1
    ]);
    assert_eq!(cpu.registers[0], 10);
    assert_eq!(cpu.registers[1], 20);
    assert_eq!(cpu.registers[2], 30);
}

#[test]
fn sub_immediate() {
    let (cpu, _) = run_program(&[
        0xE3A0_0064, // MOV R0, #100
        0xE240_101E, // SUB R1, R0, #30
    ]);
    assert_eq!(cpu.registers[1], 70);
}

#[test]
fn cmp_sets_zero_flag() {
    let (cpu, _) = run_program(&[
        0xE3A0_0005, // MOV R0, #5
        0xE350_0005, // CMP R0, #5
    ]);
    assert!(cpu.flag_z());
    assert!(cpu.flag_c());
}

#[test]
fn conditional_execution() {
    let (cpu, _) = run_program(&[
        0xE3A0_0005, // MOV R0, #5
        0xE3A0_1000, // MOV R1, #0
        0xE350_0003, // CMP R0, #3
        0x03A0_1063, // MOVEQ R1, #99 (skipped)
        0x13A0_204D, // MOVNE R2, #77 (executed)
    ]);
    assert_eq!(cpu.registers[1], 0);
    assert_eq!(cpu.registers[2], 77);
}

#[test]
fn str_and_ldr() {
    let (cpu, _) = run_program(&[
        0xE3A0_00FF, // MOV R0, #0xFF
        0xE58D_0000, // STR R0, [R13, #0]
        0xE3A0_0000, // MOV R0, #0
        0xE59D_1000, // LDR R1, [R13, #0]
    ]);
    assert_eq!(cpu.registers[0], 0);
    assert_eq!(cpu.registers[1], 0xFF);
}

#[test]
fn add_with_lsl() {
    let (cpu, _) = run_program(&[
        0xE3A0_0003, // MOV R0, #3
        0xE3A0_1005, // MOV R1, #5
        0xE080_2101, // ADD R2, R0, R1, LSL #2
    ]);
    assert_eq!(cpu.registers[2], 23);
}

#[test]
fn mov_with_lsr() {
    let (cpu, _) = run_program(&[
        0xE3A0_0080, // MOV R0, #128
        0xE1A0_11A0, // MOV R1, R0, LSR #3
    ]);
    assert_eq!(cpu.registers[1], 16);
}

#[test]
fn asr_preserves_sign() {
    let (cpu, _) = run_program(&[
        0xE3E0_0000, // MVN R0, #0
        0xE1A0_0C00, // MOV R0, R0, LSL #24
        0xE1A0_1C40, // MOV R1, R0, ASR #24
    ]);
    assert_eq!(cpu.registers[0], 0xFF00_0000);
    assert_eq!(cpu.registers[1], 0xFFFF_FFFF);
}

#[test]
fn mov_lsr_zero_means_lsr_32() {
    let (cpu, _) = run_program(&[
        0xE3A0_0080, // MOV R0, #128
        0xE1A0_1020, // MOV R1, R0, LSR #0 (LSR #32)
    ]);
    assert_eq!(cpu.registers[1], 0);
}

#[test]
fn mov_asr_zero_means_asr_32() {
    let (cpu, _) = run_program(&[
        0xE3E0_0000, // MVN R0, #0
        0xE1A0_0C00, // MOV R0, R0, LSL #24
        0xE1A0_1040, // MOV R1, R0, ASR #0 (ASR #32)
    ]);
    assert_eq!(cpu.registers[1], 0xFFFF_FFFF);
}

#[test]
fn mov_rrx() {
    let (cpu, _) = run_program(&[
        0xE3A0_0102, // MOV R0, #0x80000000
        0xE090_2000, // ADDS R2, R0, R0 (carry set)
        0xE3A0_0001, // MOV R0, #1
        0xE1A0_1060, // MOV R1, R0, RRX
    ]);
    assert_eq!(cpu.registers[1], 0x8000_0000);
}

#[test]
fn multiply_by_shift() {
    let (cpu, _) = run_program(&[
        0xE3A0_0007, // MOV R0, #7
        0xE080_1100, // ADD R1, R0, R0, LSL #2
    ]);
    assert_eq!(cpu.registers[1], 35);
}

#[test]
fn overflow_flag_on_signed_add() {
    let (cpu, _) = run_program(&[
        0xE3E0_0000, // MVN R0, #0
        0xE1A0_00A0, // MOV R0, R0, LSR #1
        0xE290_1001, // ADDS R1, R0, #1
    ]);
    assert_eq!(cpu.registers[1], 0x8000_0000);
    assert!(cpu.flag_v());
    assert!(cpu.flag_n());
    assert!(!cpu.flag_z());
}

#[test]
fn loop_sum_1_to_10() {
    let (cpu, bus) = run_program(&[
        0xE3A0_0000, // MOV R0, #0
        0xE3A0_100A, // MOV R1, #10
        0xE3A0_2000, // MOV R2, #0
        0xE280_0001, // ADD R0, R0, #1   (loop)
        0xE082_2000, // ADD R2, R2, R0
        0xE150_0001, // CMP R0, R1
        0x1AFF_FFFB, // BNE loop
        0xE3A0_3003, // MOV R3, #3
        0xE1A0_3C03, // MOV R3, R3, LSL #24
        0xE583_2000, // STR R2, [R3]
    ]);
    assert_eq!(cpu.registers[0], 10);
    assert_eq!(cpu.registers[2], 55);
    assert_eq!(cpu.registers[3], 0x0300_0000);
    assert_eq!(bus.read_word(0x0300_0000), 55);
}
