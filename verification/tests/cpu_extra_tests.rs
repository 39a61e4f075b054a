use turtle_gba::bus::Bus;
use turtle_gba::cpu::system::isqrt;
use turtle_gba::cpu::{Cpu, CPSR_C, CPSR_N, CPSR_V, CPSR_Z, R_LR, R_PC, R_SP};

/// Steps the CPU over `instructions` in ROM (then zero words) on the given
/// bus until it halts.
fn run_on(mut bus: Bus, instructions: &[u32]) -> (Cpu, Bus) {
    let mut rom = Vec::new();
    for &inst in instructions {
        rom.extend_from_slice(&inst.to_le_bytes());
    }
    rom.extend_from_slice(&[0; 16]);
    bus.load_rom(rom);
    let mut cpu = Cpu::new();
    let mut steps = 0;
    while cpu.step(&mut bus) != 0 {
        steps += 1;
        assert!(steps < 100_000);
    }
    (cpu, bus)
}

#[test]
fn condition_codes_come_in_pairs() {
    let mut cpu = Cpu::new();
    for flags in 0..16u32 {
        cpu.set_flag(CPSR_N, flags & 8 != 0);
        cpu.set_flag(CPSR_Z, flags & 4 != 0);
        cpu.set_flag(CPSR_C, flags & 2 != 0);
        cpu.set_flag(CPSR_V, flags & 1 != 0);
        for cond in (0..14u32).step_by(2) {
            assert_eq!(cpu.condition_met(cond + 1), !cpu.condition_met(cond));
        }
        assert!(cpu.condition_met(14));
    }
}

#[test]
fn set_flag_leaves_other_bits() {
    let mut cpu = Cpu::new();
    cpu.cpsr = 0x0000_001F;
    cpu.set_flag(CPSR_C, true);
    assert_eq!(cpu.cpsr, 0x2000_001F);
    cpu.set_flag(CPSR_C, false);
    assert_eq!(cpu.cpsr, 0x0000_001F);
}

#[test]
fn bios_div() {
    let (cpu, _) = run_on(Bus::new(), &[
        0xE3E0_0063, // MVN R0, #99 -> -100
        0xE3A0_1007, // MOV R1, #7
        0xEF06_0000, // SWI 0x06 (Div)
    ]);
    assert_eq!(cpu.registers[0] as i32, -14);
    assert_eq!(cpu.registers[1] as i32, -2);
    assert_eq!(cpu.registers[3], 14);
}

#[test]
fn bios_div_by_zero_keeps_registers() {
    let (cpu, _) = run_on(Bus::new(), &[
        0xE3A0_0064, // MOV R0, #100
        0xE3A0_1000, // MOV R1, #0
        0xE3A0_3005, // MOV R3, #5
        0xEF06_0000, // SWI 0x06 (Div)
    ]);
    assert_eq!(cpu.registers[0], 100);
    assert_eq!(cpu.registers[1], 0);
    assert_eq!(cpu.registers[3], 5);
}

#[test]
fn bios_sqrt() {
    let (cpu, _) = run_on(Bus::new(), &[
        0xE3A0_0090, // MOV R0, #144
        0xEF08_0000, // SWI 0x08 (Sqrt)
    ]);
    assert_eq!(cpu.registers[0], 12);
}

#[test]
fn integer_square_root() {
    assert_eq!(isqrt(0), 0);
    assert_eq!(isqrt(15), 3);
    assert_eq!(isqrt(16), 4);
    assert_eq!(isqrt(u32::MAX), 65535);
}

#[test]
fn bios_cpuset_copies_halfwords() {
    let mut bus = Bus::new();
    bus.write_halfword(0x0200_0000, 0x1111);
    bus.write_halfword(0x0200_0002, 0x2222);
    let (_, bus) = run_on(bus, &[
        0xE3A0_0402, // MOV R0, #0x02000000
        0xE3A0_1403, // MOV R1, #0x03000000
        0xE3A0_2002, // MOV R2, #2 (two halfwords, copy)
        0xEF0B_0000, // SWI 0x0B (CpuSet)
    ]);
    assert_eq!(bus.read_halfword(0x0300_0000), 0x1111);
    assert_eq!(bus.read_halfword(0x0300_0002), 0x2222);
}

#[test]
fn bios_cpufastset_fills_words() {
    let mut bus = Bus::new();
    bus.write_word(0x0200_0000, 0xABCD_EF01);
    let (_, bus) = run_on(bus, &[
        0xE3A0_0402, // MOV R0, #0x02000000
        0xE3A0_1403, // MOV R1, #0x03000000
        0xE3A0_2401, // MOV R2, #0x01000000 (fill)
        0xE282_2003, // ADD R2, R2, #3 (three words)
        0xEF0C_0000, // SWI 0x0C (CpuFastSet)
    ]);
    for i in 0..3 {
        assert_eq!(bus.read_word(0x0300_0000 + 4 * i), 0xABCD_EF01);
    }
    assert_eq!(bus.read_word(0x0300_000C), 0);
}

#[test]
fn bios_lz77_decompresses() {
    let mut bus = Bus::new();
    // Header: type 0x10, 6 bytes; flags: literal, literal, reference
    let data: [u8; 9] = [0x10, 0x06, 0x00, 0x00, 0x20, b'A', b'B', 0x10, 0x01];
    for (i, &b) in data.iter().enumerate() {
        bus.write_byte(0x0200_0000 + i as u32, b);
    }
    let (_, bus) = run_on(bus, &[
        0xE3A0_0402, // MOV R0, #0x02000000
        0xE3A0_1403, // MOV R1, #0x03000000
        0xEF11_0000, // SWI 0x11 (LZ77UnCompWram)
    ]);
    let out: Vec<u8> = (0..7).map(|i| bus.read_byte(0x0300_0000 + i)).collect();
    assert_eq!(out, b"ABABAB\0".to_vec());
}

#[test]
fn thumb_program_runs() {
    // ARM: ADD R0, PC, #1 ; BX R0 -> THUMB at 0x08000009 & !1
    // THUMB: MOV R1, #200 ; ADD R1, #55 ; LSL R2, R1, #4 ; halt
    let mut bus = Bus::new();
    let mut rom = Vec::new();
    for w in [0xE28F_0001u32, 0xE12F_FF10] {
        rom.extend_from_slice(&w.to_le_bytes());
    }
    for h in [0x21C8u16, 0x3137, 0x010A, 0x0000] {
        rom.extend_from_slice(&h.to_le_bytes());
    }
    rom.extend_from_slice(&[0; 8]);
    bus.load_rom(rom);
    let mut cpu = Cpu::new();
    while cpu.step(&mut bus) != 0 {}
    assert!(cpu.in_thumb_mode());
    assert_eq!(cpu.registers[1], 255);
    assert_eq!(cpu.registers[2], 255 << 4);
}

#[test]
fn branch_with_link_sets_lr() {
    let (cpu, _) = run_on(Bus::new(), &[
        0xEB00_0000, // BL +8 (skips one word)
        0xE3A0_0001, // MOV R0, #1 (skipped)
        0xE3A0_0002, // MOV R0, #2
    ]);
    assert_eq!(cpu.registers[0], 2);
    assert_eq!(cpu.registers[R_LR], 0x0800_0004);
}

#[test]
fn push_and_pop_round_trip() {
    let (cpu, _) = run_on(Bus::new(), &[
        0xE3A0_0011, // MOV R0, #17
        0xE3A0_1022, // MOV R1, #34
        0xE92D_0003, // STMFD SP!, {R0, R1}
        0xE3A0_0000, // MOV R0, #0
        0xE3A0_1000, // MOV R1, #0
        0xE8BD_0003, // LDMFD SP!, {R0, R1}
    ]);
    assert_eq!(cpu.registers[0], 17);
    assert_eq!(cpu.registers[1], 34);
    assert_eq!(cpu.registers[R_SP], 0x0300_7F00);
}

#[test]
fn set_mode_sp_banks_stack_pointer() {
    let mut cpu = Cpu::new();
    cpu.set_mode_sp(0x12, 0x0300_7FA0);
    // Still in the reset mode: the live SP is unchanged
    assert_eq!(cpu.registers[R_SP], 0x0300_7F00);
    assert_eq!(cpu.banked_sp[2], 0x0300_7FA0);
}

#[test]
fn msr_mode_switch_round_trip_restores_sp() {
    let (cpu, _) = run_on(Bus::new(), &[
        0xE3A0_D401, // MOV SP, #0x01000000 (System SP)
        0xE321_F012, // MSR CPSR_c, #0x12 (IRQ mode)
        0xE3A0_D402, // MOV SP, #0x02000000 (IRQ SP)
        0xE321_F01F, // MSR CPSR_c, #0x1F (System mode)
    ]);
    assert_eq!(cpu.registers[R_SP], 0x0100_0000);
    assert_eq!(cpu.banked_sp[2], 0x0200_0000);
    assert_eq!(cpu.cpsr & 0x1F, 0x1F);
}

#[test]
fn halt_advances_pc_by_one_word() {
    let (cpu, _) = run_on(Bus::new(), &[0xE3A0_0001]);
    // MOV at 0x08000000, zero word at 0x08000004 halts after the fetch
    assert_eq!(cpu.registers[R_PC], 0x0800_0008);
}

#[test]
fn msr_flags_only_keeps_registers() {
    let (cpu, _) = run_on(Bus::new(), &[
        0xE3A0_0005, // MOV R0, #5
        0xE328_F20F, // MSR CPSR_f, #0xF0000000
    ]);
    assert!(cpu.flag_n() && cpu.flag_z() && cpu.flag_c() && cpu.flag_v());
    assert_eq!(cpu.registers[0], 5);
    assert_eq!(cpu.registers[R_SP], 0x0300_7F00);
    assert_eq!(cpu.cpsr & 0x1F, 0);
}

#[test]
fn multiply() {
    let (cpu, _) = run_on(Bus::new(), &[
        0xE3A0_0006, // MOV R0, #6
        0xE3A0_1007, // MOV R1, #7
        0xE002_0190, // MUL R2, R0, R1
    ]);
    assert_eq!(cpu.registers[2], 42);
}

#[test]
fn halfword_and_signed_loads() {
    let (cpu, _) = run_on(Bus::new(), &[
        0xE3A0_0E18, // MOV R0, #0x180
        0xE1CD_00B0, // STRH R0, [R13]
        0xE1DD_10D0, // LDRSB R1, [R13]
        0xE1DD_20F0, // LDRSH R2, [R13]
        0xE1DD_30B0, // LDRH R3, [R13]
    ]);
    assert_eq!(cpu.registers[1], 0xFFFF_FF80);
    assert_eq!(cpu.registers[2], 0x0000_0180);
    assert_eq!(cpu.registers[3], 0x0000_0180);
}

#[test]
fn unaligned_word_load_rotates() {
    let mut bus = Bus::new();
    bus.write_word(0x0300_7F00, 0x1122_3344);
    let (cpu, _) = run_on(bus, &[
        0xE59D_1001, // LDR R1, [R13, #1]
    ]);
    assert_eq!(cpu.registers[1], 0x4411_2233);
}

#[test]
fn thumb_halt_advances_pc_by_one_halfword() {
    let mut bus = Bus::new();
    let mut rom = Vec::new();
    for w in [0xE28F_0001u32, 0xE12F_FF10] {
        rom.extend_from_slice(&w.to_le_bytes());
    }
    rom.extend_from_slice(&[0; 8]);
    bus.load_rom(rom);
    let mut cpu = Cpu::new();
    assert!(cpu.step(&mut bus) > 0);
    assert!(cpu.step(&mut bus) > 0);
    assert_eq!(cpu.step(&mut bus), 0);
    assert_eq!(cpu.registers[R_PC], 0x0800_000A);
}
