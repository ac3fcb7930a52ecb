use gbemu::cpu::Cpu;
use gbemu::interrupt::InterruptSource;
use gbemu::memory::Memory;

/// A test ROM of 32 KiB with `program` at 0x0100.
fn memory_with_program(program: &[u8]) -> Memory {
    let mut rom = vec![0u8; 0x8000];
    rom[0x100..0x100 + program.len()].copy_from_slice(program);
    Memory::new(rom, Vec::new(), true)
}

#[test]
fn default_cpu_state() {
    let cpu = Cpu::default();
    assert_eq!(cpu.registers.a, 0x01);
    assert_eq!(cpu.registers.c, 0x13);
    assert_eq!(cpu.registers.e, 0xD8);
    assert_eq!(cpu.registers.h, 0x01);
    assert_eq!(cpu.registers.l, 0x4D);
    assert_eq!(cpu.registers.pc, 0x0100);
    assert_eq!(cpu.registers.sp, 0xFFFE);
    assert!(cpu.flags.z && cpu.flags.h && cpu.flags.c && !cpu.flags.n);
    assert!(!cpu.ime);
}

#[test]
fn nop_advances_pc() {
    let mut memory = memory_with_program(&[0x00]);
    let mut cpu = Cpu::default();
    assert_eq!(cpu.step(&mut memory), 4);
    assert_eq!(cpu.registers.pc, 0x0101);
}

#[test]
fn load_immediates() {
    // LD A,0x42; LD B,0x07; LD HL,0xC123; LD SP,0xDFF0
    let mut memory = memory_with_program(&[0x3E, 0x42, 0x06, 0x07, 0x21, 0x23, 0xC1, 0x31, 0xF0, 0xDF]);
    let mut cpu = Cpu::default();
    assert_eq!(cpu.step(&mut memory), 8);
    assert_eq!(cpu.registers.a, 0x42);
    assert_eq!(cpu.step(&mut memory), 8);
    assert_eq!(cpu.registers.b, 0x07);
    assert_eq!(cpu.step(&mut memory), 12);
    assert_eq!((cpu.registers.h, cpu.registers.l), (0xC1, 0x23));
    assert_eq!(cpu.step(&mut memory), 12);
    assert_eq!(cpu.registers.sp, 0xDFF0);
    assert_eq!(cpu.registers.pc, 0x010A);
}

#[test]
fn store_with_hl_increment_and_decrement() {
    // LD HL,0xC000; LD A,0x5A; LD (HL+),A; LD (HL-),A; LD A,(HL)
    let mut memory = memory_with_program(&[0x21, 0x00, 0xC0, 0x3E, 0x5A, 0x22, 0x32, 0x7E]);
    let mut cpu = Cpu::default();
    for _ in 0..3 {
        cpu.step(&mut memory);
    }
    assert_eq!(memory.read(0xC000), 0x5A);
    assert_eq!((cpu.registers.h, cpu.registers.l), (0xC0, 0x01));
    cpu.step(&mut memory);
    assert_eq!(memory.read(0xC001), 0x5A);
    assert_eq!((cpu.registers.h, cpu.registers.l), (0xC0, 0x00));
    cpu.registers.a = 0;
    assert_eq!(cpu.step(&mut memory), 8);
    assert_eq!(cpu.registers.a, 0x5A);
}

#[test]
fn inc_and_dec_flags() {
    // INC B; DEC B; DEC B; INC C; DEC C
    let mut memory = memory_with_program(&[0x04, 0x05, 0x05, 0x0C, 0x0D]);
    let mut cpu = Cpu::default();
    cpu.registers.b = 0x0F;
    cpu.flags.c = true;
    cpu.step(&mut memory);
    assert_eq!(cpu.registers.b, 0x10);
    assert!(cpu.flags.h && !cpu.flags.z && !cpu.flags.n && cpu.flags.c);
    cpu.step(&mut memory);
    assert_eq!(cpu.registers.b, 0x0F);
    assert!(cpu.flags.h && cpu.flags.n && !cpu.flags.z);
    cpu.registers.b = 0x01;
    cpu.step(&mut memory);
    assert_eq!(cpu.registers.b, 0x00);
    assert!(cpu.flags.z && cpu.flags.n && !cpu.flags.h);
    cpu.registers.c = 0xFF;
    cpu.step(&mut memory);
    assert_eq!(cpu.registers.c, 0x00);
    assert!(cpu.flags.z && cpu.flags.h);
    cpu.step(&mut memory);
    assert_eq!(cpu.registers.c, 0xFF);
    assert!(cpu.flags.n && cpu.flags.h && !cpu.flags.z);
}

#[test]
fn alu_add_sub_compare() {
    // ADD A,E; SUB A,B; CP A,0x10; ADC A,C
    let mut memory = memory_with_program(&[0x83, 0x90, 0xFE, 0x10, 0x89]);
    let mut cpu = Cpu::default();
    cpu.registers.a = 0xF8;
    cpu.registers.e = 0x0A;
    cpu.step(&mut memory);
    assert_eq!(cpu.registers.a, 0x02);
    assert!(cpu.flags.c && cpu.flags.h && !cpu.flags.z && !cpu.flags.n);
    cpu.registers.b = 0x03;
    cpu.step(&mut memory);
    assert_eq!(cpu.registers.a, 0xFF);
    assert!(cpu.flags.c && cpu.flags.h && cpu.flags.n && !cpu.flags.z);
    assert_eq!(cpu.step(&mut memory), 8);
    assert_eq!(cpu.registers.a, 0xFF);
    assert!(!cpu.flags.z && !cpu.flags.c && cpu.flags.n);
    cpu.flags.c = true;
    cpu.registers.a = 0x0E;
    cpu.registers.c = 0x01;
    cpu.step(&mut memory);
    assert_eq!(cpu.registers.a, 0x10);
    assert!(cpu.flags.h && !cpu.flags.c);
}

#[test]
fn logic_operations() {
    // XOR A,A; OR A,C; AND A,C; CP A,A
    let mut memory = memory_with_program(&[0xAF, 0xB1, 0xA1, 0xBF]);
    let mut cpu = Cpu::default();
    cpu.step(&mut memory);
    assert_eq!(cpu.registers.a, 0);
    assert!(cpu.flags.z && !cpu.flags.c && !cpu.flags.h && !cpu.flags.n);
    cpu.registers.c = 0x30;
    cpu.step(&mut memory);
    assert_eq!(cpu.registers.a, 0x30);
    assert!(!cpu.flags.z);
    cpu.registers.c = 0x0F;
    cpu.step(&mut memory);
    assert_eq!(cpu.registers.a, 0x00);
    assert!(cpu.flags.z && cpu.flags.h);
    cpu.step(&mut memory);
    assert!(cpu.flags.z && cpu.flags.n && !cpu.flags.c && !cpu.flags.h);
}

#[test]
fn rotations() {
    // RLA; RRA; CB 11 (RL C)
    let mut memory = memory_with_program(&[0x17, 0x1F, 0xCB, 0x11]);
    let mut cpu = Cpu::default();
    cpu.registers.a = 0x81;
    cpu.flags.c = false;
    cpu.step(&mut memory);
    assert_eq!(cpu.registers.a, 0x02);
    assert!(cpu.flags.c && !cpu.flags.z);
    cpu.step(&mut memory);
    assert_eq!(cpu.registers.a, 0x81);
    assert!(!cpu.flags.c);
    cpu.registers.c = 0x80;
    cpu.flags.c = false;
    // the whole two-byte prefixed instruction takes 8 T-cycles
    assert_eq!(cpu.step(&mut memory), 8);
    assert_eq!(cpu.registers.pc, 0x0104);
    assert_eq!(cpu.registers.c, 0x00);
    assert!(cpu.flags.z && cpu.flags.c);
}

#[test]
fn bit_7_h_sets_zero_when_clear() {
    // CB 7C twice
    let mut memory = memory_with_program(&[0xCB, 0x7C, 0xCB, 0x7C]);
    let mut cpu = Cpu::default();
    cpu.registers.h = 0x9F;
    assert_eq!(cpu.step(&mut memory), 8);
    assert_eq!(cpu.registers.pc, 0x0102);
    assert!(!cpu.flags.z && cpu.flags.h && !cpu.flags.n);
    cpu.registers.h = 0x1F;
    cpu.step(&mut memory);
    assert!(cpu.flags.z);
}

#[test]
fn relative_jumps() {
    // JR +2; (skipped 2 bytes); JR NZ -4
    let mut memory = memory_with_program(&[0x18, 0x02, 0x00, 0x00, 0x20, 0xFC, 0x28, 0x05]);
    let mut cpu = Cpu::default();
    assert_eq!(cpu.step(&mut memory), 12);
    assert_eq!(cpu.registers.pc, 0x0104);
    cpu.flags.z = false;
    assert_eq!(cpu.step(&mut memory), 12);
    assert_eq!(cpu.registers.pc, 0x0102);
    cpu.registers.pc = 0x0106;
    cpu.flags.z = false;
    // JR Z not taken
    assert_eq!(cpu.step(&mut memory), 8);
    assert_eq!(cpu.registers.pc, 0x0108);
}

#[test]
fn push_then_pop_gives_back_the_value() {
    // LD SP,0xDFFE; PUSH BC; POP BC after changing BC
    let mut memory = memory_with_program(&[0x31, 0xFE, 0xDF, 0xC5, 0xC1]);
    let mut cpu = Cpu::default();
    cpu.step(&mut memory);
    cpu.registers.b = 0xBE;
    cpu.registers.c = 0xEF;
    assert_eq!(cpu.step(&mut memory), 16);
    assert_eq!(cpu.registers.sp, 0xDFFC);
    // little-endian: the low byte at the new SP, the high byte above it
    assert_eq!(memory.read(0xDFFC), 0xEF);
    assert_eq!(memory.read(0xDFFD), 0xBE);
    cpu.registers.b = 0;
    cpu.registers.c = 0;
    assert_eq!(cpu.step(&mut memory), 12);
    assert_eq!((cpu.registers.b, cpu.registers.c), (0xBE, 0xEF));
    assert_eq!(cpu.registers.sp, 0xDFFE);
}

#[test]
fn call_and_return() {
    // LD SP,0xDFFE; CALL 0x0200 ... at 0x0200: RET
    let mut rom = vec![0u8; 0x8000];
    rom[0x100..0x106].copy_from_slice(&[0x31, 0xFE, 0xDF, 0xCD, 0x00, 0x02]);
    rom[0x200] = 0xC9;
    let mut memory = Memory::new(rom, Vec::new(), true);
    let mut cpu = Cpu::default();
    cpu.step(&mut memory);
    assert_eq!(cpu.step(&mut memory), 24);
    assert_eq!(cpu.registers.pc, 0x0200);
    assert_eq!(cpu.registers.sp, 0xDFFC);
    assert_eq!(cpu.step(&mut memory), 16);
    // the pushed return address is the address after the CALL
    assert_eq!(cpu.registers.pc, 0x0106);
    assert_eq!(cpu.registers.sp, 0xDFFE);
}

#[test]
fn high_page_loads() {
    // LD A,0x12; LDH (0x80),A; LD A,0; LDH A,(0x80); LD C,0x81; LDH (C),A
    let mut memory = memory_with_program(&[0x3E, 0x12, 0xE0, 0x80, 0x3E, 0x00, 0xF0, 0x80, 0x0E, 0x81, 0xE2]);
    let mut cpu = Cpu::default();
    cpu.step(&mut memory);
    assert_eq!(cpu.step(&mut memory), 12);
    assert_eq!(memory.read(0xFF80), 0x12);
    cpu.step(&mut memory);
    assert_eq!(cpu.step(&mut memory), 12);
    assert_eq!(cpu.registers.a, 0x12);
    cpu.step(&mut memory);
    assert_eq!(cpu.step(&mut memory), 8);
    assert_eq!(memory.read(0xFF81), 0x12);
}

#[test]
fn push_af_puts_a_high_and_flags_low() {
    // LD SP,0xDFFE; PUSH AF
    let mut memory = memory_with_program(&[0x31, 0xFE, 0xDF, 0xF5]);
    let mut cpu = Cpu::default();
    cpu.step(&mut memory);
    cpu.registers.a = 0x77;
    cpu.flags.z = true;
    cpu.flags.n = false;
    cpu.flags.h = true;
    cpu.flags.c = false;
    assert_eq!(cpu.step(&mut memory), 16);
    // AF = 0x77A0: F has Z in bit 7, N in 6, H in 5, C in 4
    assert_eq!(memory.read(0xDFFD), 0x77);
    assert_eq!(memory.read(0xDFFC), 0xA0);
}

#[test]
fn push_af_at_power_on_is_01b0() {
    // LD SP,0xDFFE; PUSH AF, with A and the flags as at power-on
    let mut memory = memory_with_program(&[0x31, 0xFE, 0xDF, 0xF5]);
    let mut cpu = Cpu::default();
    cpu.step(&mut memory);
    cpu.step(&mut memory);
    assert_eq!(memory.read(0xDFFC), 0xB0);
    assert_eq!(memory.read(0xDFFD), 0x01);
}

#[test]
fn push_de_then_pop_bc_copies_de() {
    // LD SP,0xDFFE; PUSH DE; POP BC
    let mut memory = memory_with_program(&[0x31, 0xFE, 0xDF, 0xD5, 0xC1]);
    let mut cpu = Cpu::default();
    cpu.step(&mut memory);
    cpu.registers.d = 0x12;
    cpu.registers.e = 0x34;
    assert_eq!(cpu.step(&mut memory), 16);
    assert_eq!(cpu.step(&mut memory), 12);
    assert_eq!((cpu.registers.b, cpu.registers.c), (0x12, 0x34));
    assert_eq!(cpu.registers.sp, 0xDFFE);
    assert_eq!(cpu.registers.pc, 0x0105);
}

#[test]
fn interrupt_enable_and_disable() {
    let mut memory = memory_with_program(&[0xFB, 0xF3]);
    let mut cpu = Cpu::default();
    cpu.step(&mut memory);
    assert!(cpu.ime);
    cpu.step(&mut memory);
    assert!(!cpu.ime);
}

#[test]
fn service_interrupt_pushes_pc_and_jumps() {
    let mut memory = memory_with_program(&[0x00]);
    let mut cpu = Cpu::default();
    cpu.registers.sp = 0xDFFE;
    cpu.registers.pc = 0x1234;
    memory.write(0xFFFF, 0x1F);
    memory.write(0xFF0F, 0x04);
    assert_eq!(memory.registers.get_pending_interrupt(), Some(InterruptSource::Timer));
    cpu.ime = true;
    assert_eq!(cpu.service_interrupt(&InterruptSource::Timer, &mut memory), 5);
    assert_eq!(cpu.registers.pc, 0x0050);
    assert!(!cpu.ime);
    assert_eq!(cpu.registers.sp, 0xDFFC);
    assert_eq!(memory.read(0xFF0F), 0x00);
    assert_eq!(memory.read(0xDFFC), 0x34);
    assert_eq!(memory.read(0xDFFD), 0x12);
    // with IME clear nothing happens
    assert_eq!(cpu.service_interrupt(&InterruptSource::VBlank, &mut memory), 5);
    assert_eq!(cpu.registers.pc, 0x0050);
}

#[test]
fn return_after_interrupt_resumes() {
    let mut rom = vec![0u8; 0x8000];
    rom[0x40] = 0xC9;
    let mut memory = Memory::new(rom, Vec::new(), true);
    let mut cpu = Cpu::default();
    cpu.registers.sp = 0xFFFE;
    cpu.registers.pc = 0x0150;
    cpu.ime = true;
    cpu.service_interrupt(&InterruptSource::VBlank, &mut memory);
    assert_eq!(cpu.registers.pc, 0x0040);
    cpu.step(&mut memory);
    assert_eq!(cpu.registers.pc, 0x0150);
    assert_eq!(cpu.registers.sp, 0xFFFE);
}

#[test]
fn sixteen_bit_increments_wrap() {
    // INC BC; DEC HL; INC DE; ADD HL,BC; DEC BC
    let mut memory = memory_with_program(&[0x03, 0x2B, 0x13, 0x09, 0x0B]);
    let mut cpu = Cpu::default();
    cpu.registers.b = 0xFF;
    cpu.registers.c = 0xFF;
    cpu.registers.h = 0;
    cpu.registers.l = 0;
    cpu.registers.d = 0x12;
    cpu.registers.e = 0xFF;
    cpu.step(&mut memory);
    assert_eq!((cpu.registers.b, cpu.registers.c), (0, 0));
    cpu.step(&mut memory);
    assert_eq!((cpu.registers.h, cpu.registers.l), (0xFF, 0xFF));
    cpu.step(&mut memory);
    assert_eq!((cpu.registers.d, cpu.registers.e), (0x13, 0x00));
    cpu.registers.b = 0x00;
    cpu.registers.c = 0x02;
    cpu.step(&mut memory);
    assert_eq!((cpu.registers.h, cpu.registers.l), (0x00, 0x01));
    cpu.step(&mut memory);
    assert_eq!((cpu.registers.b, cpu.registers.c), (0x00, 0x01));
}

#[test]
fn conditional_call_and_return() {
    // LD SP,0xDFFE; CALL Z,0x0200 (not taken); CALL Z,0x0200 (taken); at 0x0200: RET NZ
    let mut rom = vec![0u8; 0x8000];
    rom[0x100..0x109].copy_from_slice(&[0x31, 0xFE, 0xDF, 0xCC, 0x00, 0x02, 0xCC, 0x00, 0x02]);
    rom[0x200] = 0xC0;
    rom[0x201] = 0xC0;
    let mut memory = Memory::new(rom, Vec::new(), true);
    let mut cpu = Cpu::default();
    cpu.step(&mut memory);
    cpu.flags.z = false;
    assert_eq!(cpu.step(&mut memory), 12);
    assert_eq!(cpu.registers.pc, 0x0106);
    cpu.flags.z = true;
    assert_eq!(cpu.step(&mut memory), 24);
    assert_eq!(cpu.registers.pc, 0x0200);
    // RET NZ not taken while Z is set
    assert_eq!(cpu.step(&mut memory), 8);
    assert_eq!(cpu.registers.pc, 0x0201);
    cpu.flags.z = false;
    assert_eq!(cpu.step(&mut memory), 20);
    assert_eq!(cpu.registers.pc, 0x0109);
    assert_eq!(cpu.registers.sp, 0xDFFE);
}

#[test]
fn try_step_refuses_unimplemented_opcodes() {
    let mut memory = memory_with_program(&[0xD3]);
    let mut cpu = Cpu::default();
    assert!(!cpu.can_step(&memory));
    assert_eq!(cpu.try_step(&mut memory), None);
    assert_eq!(cpu.registers.pc, 0x0100);
}

#[test]
fn try_step_refuses_unsupported_accesses() {
    // LD (HL),A with HL in ROM; LD A,(HL) with HL in echo RAM
    let mut memory = memory_with_program(&[0x77, 0x7E]);
    let mut cpu = Cpu::default();
    cpu.registers.h = 0x20;
    cpu.registers.l = 0x01;
    assert_eq!(cpu.try_step(&mut memory), None);
    cpu.registers.pc = 0x0101;
    cpu.registers.h = 0xE0;
    assert_eq!(cpu.try_step(&mut memory), None);
    cpu.registers.h = 0xC0;
    assert_eq!(cpu.try_step(&mut memory), Some(8));
}

#[test]
fn jump_absolute_and_store_absolute() {
    // LD A,0x99; LD (0xC100),A; JP 0x0150
    let mut memory = memory_with_program(&[0x3E, 0x99, 0xEA, 0x00, 0xC1, 0xC3, 0x50, 0x01]);
    let mut cpu = Cpu::default();
    cpu.step(&mut memory);
    assert_eq!(cpu.step(&mut memory), 16);
    assert_eq!(memory.read(0xC100), 0x99);
    assert_eq!(cpu.step(&mut memory), 16);
    assert_eq!(cpu.registers.pc, 0x0150);
}

#[test]
fn can_service_checks_the_stack() {
    let mut memory = memory_with_program(&[0x00]);
    let mut cpu = Cpu::default();
    cpu.ime = true;
    cpu.registers.sp = 0x0002;
    assert!(!cpu.can_service(&InterruptSource::VBlank, &memory));
    cpu.registers.sp = 0xC010;
    assert!(cpu.can_service(&InterruptSource::VBlank, &memory));
    cpu.ime = false;
    cpu.registers.sp = 0x0002;
    assert!(cpu.can_service(&InterruptSource::VBlank, &memory));
    let _ = &mut memory;
}
