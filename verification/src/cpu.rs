//! The Sharp LR35902 CPU: registers, flags, the ALU and the instruction interpreter.
use vstd::prelude::*;

use crate::interrupt::InterruptSource;
use crate::memory::{
    is_ram_address, lemma_ram_read_after_write, lemma_write_leaves_other_reads,
    lemma_write_support_independent, Memory, MemoryView,
};
use crate::util::{bit_value, is_nth_bit_set, nth_bit};

verus! {

pub const HIGH_ADDRESS: u16 = 0xFF00;

/// `x + d` on 16 bits, wrapping around.
#[verifier::opaque]
pub open spec fn add16(x: u16, d: int) -> u16 {
    ((x + d) % 0x10000) as u16
}

/// The 16-bit value with low byte `lo` and high byte `hi` (little-endian).
#[verifier::opaque]
pub open spec fn join(lo: u8, hi: u8) -> u16 {
    (hi * 256 + lo) as u16
}

#[verifier::opaque]
pub open spec fn low_byte(v: u16) -> u8 {
    (v % 256) as u8
}

#[verifier::opaque]
pub open spec fn high_byte(v: u16) -> u8 {
    (v / 256) as u8
}

/// The address $FF00 + `offset` of the LDH instructions.
pub open spec fn high_address(offset: u8) -> u16 {
    (0xFF00 + offset) as u16
}

/// The CPU registers.
/// A = 0x01, B = 0x00, C = 0x13, D = 0x00, E = 0xD8, H = 0x01, L = 0x4D.
/// PC = 0x0100, SP = 0xFFFE at start.
#[derive(Debug, Clone, Copy)]
pub struct Registers {
    /// Accumulator
    pub a: u8,
    pub b: u8,
    pub c: u8,
    pub d: u8,
    pub e: u8,
    pub h: u8,
    pub l: u8,
    /// Stack pointer
    pub sp: u16,
    /// Program Counter
    pub pc: u16,
}

impl Registers {
    pub open spec fn bc_value(self) -> u16 {
        join(self.c, self.b)
    }

    pub open spec fn de_value(self) -> u16 {
        join(self.e, self.d)
    }

    pub open spec fn hl_value(self) -> u16 {
        join(self.l, self.h)
    }

    pub open spec fn with_bc(self, v: u16) -> Registers {
        Registers { c: low_byte(v), b: high_byte(v), ..self }
    }

    pub open spec fn with_de(self, v: u16) -> Registers {
        Registers { e: low_byte(v), d: high_byte(v), ..self }
    }

    pub open spec fn with_hl(self, v: u16) -> Registers {
        Registers { l: low_byte(v), h: high_byte(v), ..self }
    }

    pub open spec fn initial() -> Registers {
        Registers { a: 0x01, b: 0x00, c: 0x13, d: 0x00, e: 0xD8, h: 0x01, l: 0x4D, pc: 0x0100, sp: 0xFFFE }
    }

    fn bc(&self) -> (r: u16)
        ensures
            r == self.bc_value(),
    {
        join_u16(self.c, self.b)
    }

    fn set_bc(&mut self, value: u16)
        ensures
            *final(self) == old(self).with_bc(value),
    {
        let (lo, hi) = split_u16(value);
        self.c = lo;
        self.b = hi;
    }

    fn de(&self) -> (r: u16)
        ensures
            r == self.de_value(),
    {
        join_u16(self.e, self.d)
    }

    fn set_de(&mut self, value: u16)
        ensures
            *final(self) == old(self).with_de(value),
    {
        let (lo, hi) = split_u16(value);
        self.e = lo;
        self.d = hi;
    }

    fn hl(&self) -> (r: u16)
        ensures
            r == self.hl_value(),
    {
        join_u16(self.l, self.h)
    }

    fn set_hl(&mut self, value: u16)
        ensures
            *final(self) == old(self).with_hl(value),
    {
        let (lo, hi) = split_u16(value);
        self.l = lo;
        self.h = hi;
    }
}

/// The flag register.
#[derive(Debug, Clone, Copy)]
pub struct Flags {
    /// Set if and only if the result of an operation is zero. Used by conditional jumps.
    pub z: bool,
    /// The Carry Flag is set when the result of an 8-bit addition is higher than $FF, of a
    /// 16-bit addition higher than $FFFF, when the result of a subtraction or comparison is
    /// lower than zero, and when a rotate/shift operation shifts out a "1" bit.
    /// Used by conditional jumps and instructions such as ADC, SBC, RL, RLA, etc.
    pub c: bool,
    /// N indicates whether the previous instruction has been a subtraction.
    pub n: bool,
    /// H indicates carry for the lower 4 bits of the result.
    pub h: bool,
}

impl Flags {
    /// Z=1, N=0, H=1, C=1 at start.
    pub open spec fn initial() -> Flags {
        Flags { z: true, n: false, h: true, c: true }
    }
}

/// The CPU: its registers, its flags and the interrupt master enable.
#[derive(Debug, Clone, Copy)]
pub struct Cpu {
    pub registers: Registers,
    pub flags: Flags,
    /// Interrupt Master Enabled
    ///
    /// IME   Global flag   Affected by DI / EI
    /// IE    0xFFFF        Bitmask: enables each interrupt source
    /// IF    0xFF0F        Bitmask: flags when interrupt occurred
    pub ime: bool,
}

impl Cpu {
    pub open spec fn initial() -> Cpu {
        Cpu { registers: Registers::initial(), flags: Flags::initial(), ime: false }
    }

    pub open spec fn with_registers(self, r: Registers) -> Cpu {
        Cpu { registers: r, ..self }
    }

    pub open spec fn with_pc(self, pc: u16) -> Cpu {
        Cpu { registers: Registers { pc: pc, ..self.registers }, ..self }
    }

    pub open spec fn with_sp(self, sp: u16) -> Cpu {
        Cpu { registers: Registers { sp: sp, ..self.registers }, ..self }
    }

    pub open spec fn with_a(self, v: u8) -> Cpu {
        Cpu { registers: Registers { a: v, ..self.registers }, ..self }
    }

    pub open spec fn with_b(self, v: u8) -> Cpu {
        Cpu { registers: Registers { b: v, ..self.registers }, ..self }
    }

    pub open spec fn with_c(self, v: u8) -> Cpu {
        Cpu { registers: Registers { c: v, ..self.registers }, ..self }
    }

    pub open spec fn with_d(self, v: u8) -> Cpu {
        Cpu { registers: Registers { d: v, ..self.registers }, ..self }
    }

    pub open spec fn with_e(self, v: u8) -> Cpu {
        Cpu { registers: Registers { e: v, ..self.registers }, ..self }
    }

    pub open spec fn with_h(self, v: u8) -> Cpu {
        Cpu { registers: Registers { h: v, ..self.registers }, ..self }
    }

    pub open spec fn with_l(self, v: u8) -> Cpu {
        Cpu { registers: Registers { l: v, ..self.registers }, ..self }
    }

    pub open spec fn with_flags(self, f: Flags) -> Cpu {
        Cpu { flags: f, ..self }
    }

    /// The F register: Z in bit 7, N in bit 6, H in bit 5, C in bit 4, the low nibble zero.
    pub open spec fn f_byte(self) -> u8 {
        (128 * bit_value(self.flags.z) + 64 * bit_value(self.flags.n) + 32 * bit_value(
            self.flags.h,
        ) + 16 * bit_value(self.flags.c)) as u8
    }

    /// The AF pair as pushed by PUSH AF: A in the high byte and F in the low byte.
    pub open spec fn af_value(self) -> u16 {
        join(self.f_byte(), self.registers.a)
    }
}

/// The byte at PC, and the CPU with PC moved past it.
pub open spec fn fetch8(cpu: Cpu, mem: MemoryView) -> Option<(Cpu, u8)> {
    match mem.read(cpu.registers.pc as int) {
        Some(b) => Some((cpu.with_pc(add16(cpu.registers.pc, 1)), b)),
        None => None,
    }
}

/// The little-endian 16-bit value at PC, and the CPU with PC moved past it.
pub open spec fn fetch16(cpu: Cpu, mem: MemoryView) -> Option<(Cpu, u16)> {
    match fetch8(cpu, mem) {
        Some((c1, lo)) => match fetch8(c1, mem) {
            Some((c2, hi)) => Some((c2, join(lo, hi))),
            None => None,
        },
        None => None,
    }
}

/// Push (little-endian): SP is decremented and the high byte written, then SP is decremented
/// again and the low byte written, so that the new SP holds the low byte.
pub open spec fn push(cpu: Cpu, mem: MemoryView, value: u16) -> Option<(Cpu, MemoryView)> {
    let sp1 = add16(cpu.registers.sp, -1);
    match mem.write(sp1 as int, high_byte(value)) {
        Some(m1) => {
            let sp2 = add16(sp1, -1);
            match m1.write(sp2 as int, low_byte(value)) {
                Some(m2) => Some((cpu.with_sp(sp2), m2)),
                None => None,
            }
        },
        None => None,
    }
}

/// Pop (little-endian): the low byte is read at SP and the high byte at SP + 1; SP moves up
/// by two.
pub open spec fn pop(cpu: Cpu, mem: MemoryView) -> Option<(Cpu, u16)> {
    let sp = cpu.registers.sp;
    match mem.read(sp as int) {
        Some(lo) => match mem.read(add16(sp, 1) as int) {
            Some(hi) => Some((cpu.with_sp(add16(sp, 2)), join(lo, hi))),
            None => None,
        },
        None => None,
    }
}

/// The result of an instruction that only changes the CPU.
pub open spec fn done(cpu: Cpu, mem: MemoryView, cycles: u8) -> Option<(Cpu, MemoryView, u8)> {
    Some((cpu, mem, cycles))
}

/// The result of an instruction that stores `value` at `address`.
pub open spec fn store(cpu: Cpu, mem: MemoryView, address: u16, value: u8, cycles: u8) -> Option<
    (Cpu, MemoryView, u8),
> {
    match mem.write(address as int, value) {
        Some(m) => Some((cpu, m, cycles)),
        None => None,
    }
}

// ---------------------------------------------------------------------------------------
// ALU
// ---------------------------------------------------------------------------------------
/// ADC: A + value + carry; half carry out of bit 3, carry out of bit 7.
pub open spec fn adc_spec(a: u8, b: u8, carry: bool) -> (u8, Flags) {
    let sum = a + b + bit_value(carry);
    let result = (sum % 256) as u8;
    (
        result,
        Flags {
            z: result == 0,
            n: false,
            h: (a & 0x0Fu8) + (b & 0x0Fu8) + bit_value(carry) > 0x0F,
            c: sum > 0xFF,
        },
    )
}

pub open spec fn dec_spec(a: u8, flags: Flags) -> (u8, Flags) {
    let result = ((a - 1) % 256) as u8;
    (result, Flags { h: a & 0x0Fu8 == 0, z: result == 0, n: true, c: flags.c })
}

pub open spec fn inc_spec(a: u8, flags: Flags) -> (u8, Flags) {
    let result = ((a + 1) % 256) as u8;
    (result, Flags { z: result == 0, c: flags.c, n: false, h: (a & 0x0Fu8) + 1 > 0x0F })
}

pub open spec fn xor_spec(a: u8, b: u8) -> (u8, Flags) {
    let result = a ^ b;
    (result, Flags { z: result == 0, n: false, h: false, c: false })
}

pub open spec fn or_spec(a: u8, b: u8) -> (u8, Flags) {
    let result = a | b;
    (result, Flags { z: result == 0, n: false, h: false, c: false })
}

pub open spec fn and_spec(a: u8, b: u8) -> (u8, Flags) {
    let result = a & b;
    (result, Flags { z: result == 0, n: false, h: true, c: false })
}

/// Compare: the flags of A - value, A unchanged.
pub open spec fn cp_spec(a: u8, b: u8) -> Flags {
    Flags { z: a == b, n: true, h: (a & 0x0Fu8) < (b & 0x0Fu8), c: a < b }
}

pub open spec fn sub_spec(a: u8, b: u8) -> (u8, Flags) {
    let result = ((a - b) % 256) as u8;
    (result, Flags { z: result == 0, n: true, h: (a & 0x0Fu8) < (b & 0x0Fu8), c: a < b })
}

pub open spec fn add_spec(a: u8, b: u8) -> (u8, Flags) {
    let result = ((a + b) % 256) as u8;
    (result, Flags { z: result == 0, n: false, h: (a & 0x0Fu8) + (b & 0x0Fu8) > 0x0F, c: a + b > 0xFF })
}

/// Rotate left through carry; Z is only updated when `set_z_flag` holds.
pub open spec fn rl_spec(value: u8, flags: Flags, set_z_flag: bool) -> (u8, Flags) {
    let result = (value << 1u8) | (bit_value(flags.c) as u8);
    (
        result,
        Flags {
            z: if set_z_flag {
                result == 0
            } else {
                flags.z
            },
            n: false,
            h: false,
            c: value & 0x80u8 != 0,
        },
    )
}

/// RLA: rotate A left through carry; Z is cleared.
pub open spec fn rla_spec(a: u8, flags: Flags) -> (u8, Flags) {
    let result = (a << 1u8) | (bit_value(flags.c) as u8);
    (result, Flags { z: false, n: false, h: false, c: a & 0x80u8 != 0 })
}

/// RRA: rotate A right through carry; Z is cleared.
pub open spec fn rra_spec(a: u8, carry_in: bool) -> (u8, Flags) {
    let result = (a >> 1u8) | (if carry_in {
        0x80u8
    } else {
        0x00u8
    });
    (result, Flags { z: false, n: false, h: false, c: a & 0x01u8 != 0 })
}

/// A relative jump: PC plus the offset read as a signed byte.
pub open spec fn jr_spec(pc: u16, offset: u8) -> u16 {
    add16(
        pc,
        if offset < 128 {
            offset as int
        } else {
            offset - 256
        },
    )
}

/// One instruction, with `cpu` already past the opcode byte: the CPU and memory after it and
/// the number of T-cycles it takes; `None` for an opcode that is not implemented or an access
/// that the memory does not support.
pub open spec fn execute(cpu: Cpu, mem: MemoryView, opcode: u8) -> Option<(Cpu, MemoryView, u8)> {
    if opcode < 0x20 {
        execute_00_1f(cpu, mem, opcode)
    } else if opcode < 0x40 {
        execute_20_3f(cpu, mem, opcode)
    } else if opcode < 0xC0 {
        execute_40_bf(cpu, mem, opcode)
    } else {
        execute_c0_ff(cpu, mem, opcode)
    }
}

/// The instructions with opcodes 0x00 to 0x1F.
pub open spec fn execute_00_1f(cpu: Cpu, mem: MemoryView, opcode: u8) -> Option<(Cpu, MemoryView, u8)> {
    let r = cpu.registers;
    let f = cpu.flags;
    match opcode {
        // NOP
        0x00 => done(cpu, mem, 4),
        // LD BC, n16
        0x01 => match fetch16(cpu, mem) {
            Some((c, v)) => done(c.with_registers(c.registers.with_bc(v)), mem, 12),
            None => None,
        },
        // LD (BC), A
        0x02 => store(cpu, mem, r.bc_value(), r.a, 8),
        // INC BC
        0x03 => done(cpu.with_registers(r.with_bc(add16(r.bc_value(), 1))), mem, 8),
        // INC B
        0x04 => {
            let (v, fl) = inc_spec(r.b, f);
            done(cpu.with_b(v).with_flags(fl), mem, 4)
        },
        // DEC B
        0x05 => {
            let (v, fl) = dec_spec(r.b, f);
            done(cpu.with_b(v).with_flags(fl), mem, 4)
        },
        // LD B, n8
        0x06 => match fetch8(cpu, mem) {
            Some((c, n)) => done(c.with_b(n), mem, 8),
            None => None,
        },
        // ADD HL, BC
        0x09 => done(cpu.with_registers(r.with_hl(add16(r.hl_value(), r.bc_value() as int))), mem, 8),
        // DEC BC
        0x0B => done(cpu.with_registers(r.with_bc(add16(r.bc_value(), -1))), mem, 8),
        // INC C
        0x0C => {
            let (v, fl) = inc_spec(r.c, f);
            done(cpu.with_c(v).with_flags(fl), mem, 4)
        },
        // DEC C
        0x0D => {
            let (v, fl) = dec_spec(r.c, f);
            done(cpu.with_c(v).with_flags(fl), mem, 4)
        },
        // LD C, n8
        0x0E => match fetch8(cpu, mem) {
            Some((c, n)) => done(c.with_c(n), mem, 8),
            None => None,
        },
        // LD DE, n16
        0x11 => match fetch16(cpu, mem) {
            Some((c, v)) => done(c.with_registers(c.registers.with_de(v)), mem, 12),
            None => None,
        },
        // INC DE
        0x13 => done(cpu.with_registers(r.with_de(add16(r.de_value(), 1))), mem, 8),
        // DEC D
        0x15 => {
            let (v, fl) = dec_spec(r.d, f);
            done(cpu.with_d(v).with_flags(fl), mem, 4)
        },
        // LD D, n8
        0x16 => match fetch8(cpu, mem) {
            Some((c, n)) => done(c.with_d(n), mem, 8),
            None => None,
        },
        // RLA
        0x17 => {
            let (v, fl) = rla_spec(r.a, f);
            done(cpu.with_a(v).with_flags(fl), mem, 4)
        },
        // JR e8
        0x18 => match fetch8(cpu, mem) {
            Some((c, off)) => done(c.with_pc(jr_spec(c.registers.pc, off)), mem, 12),
            None => None,
        },
        // LD A, (DE)
        0x1A => match mem.read(r.de_value() as int) {
            Some(v) => done(cpu.with_a(v), mem, 8),
            None => None,
        },
        // INC E
        0x1C => {
            let (v, fl) = inc_spec(r.e, f);
            done(cpu.with_e(v).with_flags(fl), mem, 4)
        },
        // DEC E
        0x1D => {
            let (v, fl) = dec_spec(r.e, f);
            done(cpu.with_e(v).with_flags(fl), mem, 4)
        },
        // LD E, n8
        0x1E => match fetch8(cpu, mem) {
            Some((c, n)) => done(c.with_e(n), mem, 8),
            None => None,
        },
        // RRA
        0x1F => {
            let (v, fl) = rra_spec(r.a, f.c);
            done(cpu.with_a(v).with_flags(fl), mem, 4)
        },
        _ => None,
    }
}

/// The instructions with opcodes 0x20 to 0x3F.
pub open spec fn execute_20_3f(cpu: Cpu, mem: MemoryView, opcode: u8) -> Option<(Cpu, MemoryView, u8)> {
    let r = cpu.registers;
    let f = cpu.flags;
    match opcode {
        // JR NZ, e8
        0x20 => match fetch8(cpu, mem) {
            Some((c, off)) => if !f.z {
                done(c.with_pc(jr_spec(c.registers.pc, off)), mem, 12)
            } else {
                done(c, mem, 8)
            },
            None => None,
        },
        // LD HL, n16
        0x21 => match fetch16(cpu, mem) {
            Some((c, v)) => done(c.with_registers(c.registers.with_hl(v)), mem, 12),
            None => None,
        },
        // LD (HL+), A
        0x22 => match mem.write(r.hl_value() as int, r.a) {
            Some(m) => done(cpu.with_registers(r.with_hl(add16(r.hl_value(), 1))), m, 8),
            None => None,
        },
        // INC HL
        0x23 => done(cpu.with_registers(r.with_hl(add16(r.hl_value(), 1))), mem, 8),
        // INC H
        0x24 => {
            let (v, fl) = inc_spec(r.h, f);
            done(cpu.with_h(v).with_flags(fl), mem, 4)
        },
        // JR Z, e8
        0x28 => match fetch8(cpu, mem) {
            Some((c, off)) => if f.z {
                done(c.with_pc(jr_spec(c.registers.pc, off)), mem, 12)
            } else {
                done(c, mem, 8)
            },
            None => None,
        },
        // LD A, (HL+)
        0x2A => match mem.read(r.hl_value() as int) {
            Some(v) => done(
                Cpu { registers: Registers { a: v, ..r.with_hl(add16(r.hl_value(), 1)) }, ..cpu },
                mem,
                8,
            ),
            None => None,
        },
        // DEC HL
        0x2B => done(cpu.with_registers(r.with_hl(add16(r.hl_value(), -1))), mem, 8),
        // INC L
        0x2C => {
            let (v, fl) = inc_spec(r.l, f);
            done(cpu.with_l(v).with_flags(fl), mem, 4)
        },
        // LD L, n8
        0x2E => match fetch8(cpu, mem) {
            Some((c, n)) => done(c.with_l(n), mem, 8),
            None => None,
        },
        // LD SP, n16
        0x31 => match fetch16(cpu, mem) {
            Some((c, v)) => done(c.with_sp(v), mem, 12),
            None => None,
        },
        // LD (HL-), A
        0x32 => match mem.write(r.hl_value() as int, r.a) {
            Some(m) => done(cpu.with_registers(r.with_hl(add16(r.hl_value(), -1))), m, 8),
            None => None,
        },
        // LD (HL), n8
        0x36 => match fetch8(cpu, mem) {
            Some((c, n)) => store(c, mem, r.hl_value(), n, 12),
            None => None,
        },
        // SCF
        0x37 => done(cpu.with_flags(Flags { c: true, n: false, h: false, ..f }), mem, 4),
        // DEC A
        0x3D => {
            let (v, fl) = dec_spec(r.a, f);
            done(cpu.with_a(v).with_flags(fl), mem, 4)
        },
        // LD A, n8
        0x3E => match fetch8(cpu, mem) {
            Some((c, n)) => done(c.with_a(n), mem, 8),
            None => None,
        },
        _ => None,
    }
}

/// The instructions with opcodes 0x40 to 0xBF.
pub open spec fn execute_40_bf(cpu: Cpu, mem: MemoryView, opcode: u8) -> Option<(Cpu, MemoryView, u8)> {
    let r = cpu.registers;
    let f = cpu.flags;
    match opcode {
        // LD B, A
        0x47 => done(cpu.with_b(r.a), mem, 4),
        // LD C, C
        0x49 => done(cpu, mem, 4),
        // LD C, A
        0x4F => done(cpu.with_c(r.a), mem, 4),
        // LD D, A
        0x57 => done(cpu.with_d(r.a), mem, 4),
        // LD H, (HL)
        0x66 => match mem.read(r.hl_value() as int) {
            Some(v) => done(cpu.with_h(v), mem, 8),
            None => None,
        },
        // LD H, A
        0x67 => done(cpu.with_h(r.a), mem, 4),
        // LD (HL), E
        0x73 => store(cpu, mem, r.hl_value(), r.e, 8),
        // LD (HL), A
        0x77 => store(cpu, mem, r.hl_value(), r.a, 8),
        // LD A, B
        0x78 => done(cpu.with_a(r.b), mem, 4),
        // LD A, E
        0x7B => done(cpu.with_a(r.e), mem, 4),
        // LD A, H
        0x7C => done(cpu.with_a(r.h), mem, 4),
        // LD A, L
        0x7D => done(cpu.with_a(r.l), mem, 4),
        // LD A, (HL)
        0x7E => match mem.read(r.hl_value() as int) {
            Some(v) => done(cpu.with_a(v), mem, 8),
            None => None,
        },
        // LD A, A
        0x7F => done(cpu, mem, 4),
        // ADD A, E
        0x83 => {
            let (v, fl) = add_spec(r.a, r.e);
            done(cpu.with_a(v).with_flags(fl), mem, 4)
        },
        // ADD A, (HL)
        0x86 => match mem.read(r.hl_value() as int) {
            Some(b) => {
                let (v, fl) = add_spec(r.a, b);
                done(cpu.with_a(v).with_flags(fl), mem, 8)
            },
            None => None,
        },
        // ADC A, C
        0x89 => {
            let (v, fl) = adc_spec(r.a, r.c, f.c);
            done(cpu.with_a(v).with_flags(fl), mem, 4)
        },
        // SUB A, B
        0x90 => {
            let (v, fl) = sub_spec(r.a, r.b);
            done(cpu.with_a(v).with_flags(fl), mem, 4)
        },
        // SUB A, (HL)
        0x96 => match mem.read(r.hl_value() as int) {
            Some(b) => {
                let (v, fl) = sub_spec(r.a, b);
                done(cpu.with_a(v).with_flags(fl), mem, 8)
            },
            None => None,
        },
        // SUB A, A
        0x97 => done(cpu.with_a(0).with_flags(Flags { z: true, n: true, h: false, c: false }), mem, 4),
        // AND A, C
        0xA1 => {
            let (v, fl) = and_spec(r.a, r.c);
            done(cpu.with_a(v).with_flags(fl), mem, 4)
        },
        // AND A, A
        0xA7 => {
            let (v, fl) = and_spec(r.a, r.a);
            done(cpu.with_a(v).with_flags(fl), mem, 4)
        },
        // XOR A, A
        0xAF => {
            let (v, fl) = xor_spec(r.a, r.a);
            done(cpu.with_a(v).with_flags(fl), mem, 4)
        },
        // OR A, C
        0xB1 => {
            let (v, fl) = or_spec(r.a, r.c);
            done(cpu.with_a(v).with_flags(fl), mem, 4)
        },
        // OR A, L
        0xB5 => {
            let (v, fl) = or_spec(r.a, r.l);
            done(cpu.with_a(v).with_flags(fl), mem, 4)
        },
        // CP A, (HL)
        0xBE => match mem.read(r.hl_value() as int) {
            Some(b) => done(cpu.with_flags(cp_spec(r.a, b)), mem, 8),
            None => None,
        },
        // CP A, A
        0xBF => done(cpu.with_flags(cp_spec(r.a, r.a)), mem, 4),
        _ => None,
    }
}

/// The instructions with opcodes 0xC0 to 0xFF.
pub open spec fn execute_c0_ff(cpu: Cpu, mem: MemoryView, opcode: u8) -> Option<(Cpu, MemoryView, u8)> {
    let r = cpu.registers;
    let f = cpu.flags;
    match opcode {
        // RET NZ
        0xC0 => if !f.z {
            match pop(cpu, mem) {
                Some((c, addr)) => done(c.with_pc(addr), mem, 20),
                None => None,
            }
        } else {
            done(cpu, mem, 8)
        },
        // POP BC
        0xC1 => match pop(cpu, mem) {
            Some((c, v)) => done(c.with_registers(c.registers.with_bc(v)), mem, 12),
            None => None,
        },
        // JP a16
        0xC3 => match fetch16(cpu, mem) {
            Some((c, v)) => done(c.with_pc(v), mem, 16),
            None => None,
        },
        // PUSH BC
        0xC5 => match push(cpu, mem, r.bc_value()) {
            Some((c, m)) => done(c, m, 16),
            None => None,
        },
        // RET
        0xC9 => match pop(cpu, mem) {
            Some((c, addr)) => done(c.with_pc(addr), mem, 16),
            None => None,
        },
        // PREFIX: the prefixed instruction's cycle count covers both of its bytes
        0xCB => match fetch8(cpu, mem) {
            Some((c, op)) => execute_prefixed(c, mem, op),
            None => None,
        },
        // CALL Z, a16: push the address of the next instruction and jump
        0xCC => match fetch16(cpu, mem) {
            Some((c, target)) => if f.z {
                match push(c, mem, c.registers.pc) {
                    Some((c2, m2)) => done(c2.with_pc(target), m2, 24),
                    None => None,
                }
            } else {
                done(c, mem, 12)
            },
            None => None,
        },
        // CALL a16
        0xCD => match fetch16(cpu, mem) {
            Some((c, target)) => match push(c, mem, c.registers.pc) {
                Some((c2, m2)) => done(c2.with_pc(target), m2, 24),
                None => None,
            },
            None => None,
        },
        // ADC A, n8
        0xCE => match fetch8(cpu, mem) {
            Some((c, n)) => {
                let (v, fl) = adc_spec(r.a, n, f.c);
                done(c.with_a(v).with_flags(fl), mem, 8)
            },
            None => None,
        },
        // PUSH DE
        0xD5 => match push(cpu, mem, r.de_value()) {
            Some((c, m)) => done(c, m, 16),
            None => None,
        },
        // illegal DD
        0xDD => done(cpu, mem, 4),
        // LDH (a8), A
        0xE0 => match fetch8(cpu, mem) {
            Some((c, n)) => store(c, mem, high_address(n), r.a, 12),
            None => None,
        },
        // LDH (C), A
        0xE2 => store(cpu, mem, high_address(r.c), r.a, 8),
        // PUSH HL
        0xE5 => match push(cpu, mem, r.hl_value()) {
            Some((c, m)) => done(c, m, 16),
            None => None,
        },
        // LD (a16), A
        0xEA => match fetch16(cpu, mem) {
            Some((c, addr)) => store(c, mem, addr, r.a, 16),
            None => None,
        },
        // LDH A, (a8)
        0xF0 => match fetch8(cpu, mem) {
            Some((c, n)) => match mem.read(high_address(n) as int) {
                Some(v) => done(c.with_a(v), mem, 12),
                None => None,
            },
            None => None,
        },
        // DI
        0xF3 => done(Cpu { ime: false, ..cpu }, mem, 4),
        // PUSH AF
        0xF5 => match push(cpu, mem, cpu.af_value()) {
            Some((c, m)) => done(c, m, 16),
            None => None,
        },
        // EI
        0xFB => done(Cpu { ime: true, ..cpu }, mem, 4),
        // CP A, n8
        0xFE => match fetch8(cpu, mem) {
            Some((c, n)) => done(c.with_flags(cp_spec(r.a, n)), mem, 8),
            None => None,
        },
        _ => None,
    }
}

/// One CB-prefixed instruction, with `cpu` already past the second opcode byte.
pub open spec fn execute_prefixed(cpu: Cpu, mem: MemoryView, opcode: u8) -> Option<
    (Cpu, MemoryView, u8),
> {
    let r = cpu.registers;
    let f = cpu.flags;
    match opcode {
        // RL C
        0x11 => {
            let (v, fl) = rl_spec(r.c, f, true);
            done(cpu.with_c(v).with_flags(fl), mem, 8)
        },
        // BIT 7, H: Z is set when the bit is zero
        0x7C => done(cpu.with_flags(Flags { z: !nth_bit(r.h, 7), n: false, h: true, ..f }), mem, 8),
        _ => None,
    }
}

/// One step of the CPU: fetch the opcode at PC and execute it.
#[verifier::opaque]
pub open spec fn step_spec(cpu: Cpu, mem: MemoryView) -> Option<(Cpu, MemoryView, u8)> {
    match fetch8(cpu, mem) {
        Some((c, opcode)) => execute(c, mem, opcode),
        None => None,
    }
}

/// Serving an interrupt when IME is set: acknowledge it, push PC, jump to its vector and clear
/// IME; when IME is clear nothing changes.
pub open spec fn service_spec(cpu: Cpu, mem: MemoryView, source: InterruptSource) -> Option<
    (Cpu, MemoryView),
> {
    if cpu.ime {
        let m1 = MemoryView { registers: mem.registers.with_acknowledged(source), ..mem };
        match push(cpu, m1, cpu.registers.pc) {
            Some((c2, m2)) => Some((Cpu { ime: false, ..c2.with_pc(source.vector()) }, m2)),
            None => None,
        }
    } else {
        Some((cpu, mem))
    }
}

impl Default for Cpu {
    fn default() -> (r: Cpu)
        ensures
            r == Cpu::initial(),
    {
        Cpu {
            registers: Registers {
                a: 0x01,
                b: 0x00,
                c: 0x13,
                d: 0x00,
                e: 0xD8,
                h: 0x01,
                l: 0x4D,
                pc: 0x0100,
                sp: 0xFFFE,
            },
            flags: Flags { z: true, n: false, h: true, c: true },
            ime: false,
        }
    }
}

impl Cpu {
    fn fetch_imm8(&mut self, memory: &Memory) -> (r: u8)
        requires
            fetch8(*old(self), memory@) is Some,
        ensures
            fetch8(*old(self), memory@) == Some((*final(self), r)),
    {
        let byte = memory.read(self.registers.pc);
        self.registers.pc = inc16(self.registers.pc);
        byte
    }

    fn fetch_imm16(&mut self, memory: &Memory) -> (r: u16)
        requires
            fetch16(*old(self), memory@) is Some,
        ensures
            fetch16(*old(self), memory@) == Some((*final(self), r)),
    {
        let lo = self.fetch_imm8(memory);
        let hi = self.fetch_imm8(memory);
        join_u16(lo, hi)
    }

    /// Push a 16-bit value onto the stack (little-endian)
    fn push_16stk(&mut self, value: u16, memory: &mut Memory)
        requires
            push(*old(self), old(memory)@, value) is Some,
        ensures
            push(*old(self), old(memory)@, value) == Some((*final(self), final(memory)@)),
    {
        let (lo, hi) = split_u16(value);
        self.registers.sp = dec16(self.registers.sp);
        memory.write(self.registers.sp, hi);
        self.registers.sp = dec16(self.registers.sp);
        memory.write(self.registers.sp, lo);
    }

    /// Pop a 16-bit value from the stack (little-endian)
    fn pop_16stk(&mut self, memory: &Memory) -> (r: u16)
        requires
            pop(*old(self), memory@) is Some,
        ensures
            pop(*old(self), memory@) == Some((*final(self), r)),
    {
        proof {
            reveal(add16);
        }
        let lo = memory.read(self.registers.sp);
        self.registers.sp = inc16(self.registers.sp);
        let hi = memory.read(self.registers.sp);
        self.registers.sp = inc16(self.registers.sp);
        join_u16(lo, hi)
    }

    /// When IME is set: clear the interrupt's IF bit, push PC to the stack, set PC to the
    /// vector address and clear IME. The whole process lasts 5 M-cycles.
    pub fn service_interrupt(&mut self, interrupt: &InterruptSource, memory: &mut Memory) -> (r: u8)
        requires
            service_spec(*old(self), old(memory)@, *interrupt) is Some,
        ensures
            r == 5,
            service_spec(*old(self), old(memory)@, *interrupt) == Some(
                (*final(self), final(memory)@),
            ),
    {
        if self.ime {
            memory.registers.acknowledge_interrupt(interrupt);
            self.push_16stk(self.registers.pc, memory);
            self.registers.pc = interrupt.jump_addres();
            self.ime = false;
        }
        5
    }

    fn register_af(&self) -> (r: u16)
        ensures
            r == self.af_value(),
    {
        let mut f: u8 = 0;
        if self.flags.z {
            f = f + 0x80;
        }
        if self.flags.n {
            f = f + 0x40;
        }
        if self.flags.h {
            f = f + 0x20;
        }
        if self.flags.c {
            f = f + 0x10;
        }
        join_u16(f, self.registers.a)
    }

    /// Whether a push of `value` is supported by the memory under the stack.
    fn can_push(&self, memory: &Memory, value: u16) -> (r: bool)
        ensures
            r == (push(*self, memory@, value) is Some),
    {
        let sp1 = dec16(self.registers.sp);
        let sp2 = dec16(sp1);
        let (lo, hi) = split_u16(value);
        if !memory.can_write(sp1, hi) {
            return false;
        }
        proof {
            reveal(add16);
            lemma_write_support_independent(memory@, sp1 as int, hi, sp2 as int, lo);
        }
        memory.can_write(sp2, lo)
    }

    /// Whether a pop is supported by the memory under the stack.
    fn can_pop(&self, memory: &Memory) -> (r: bool)
        ensures
            r == (pop(*self, memory@) is Some),
    {
        memory.can_read(self.registers.sp) && memory.can_read(inc16(self.registers.sp))
    }

    /// Whether the two bytes at PC can be read.
    fn can_fetch16(&self, memory: &Memory) -> (r: bool)
        ensures
            r == (fetch16(*self, memory@) is Some),
    {
        memory.can_read(self.registers.pc) && memory.can_read(inc16(self.registers.pc))
    }

    /// The 16-bit value at PC, and the CPU past it, without changing `self`.
    fn peek16(&self, memory: &Memory) -> (r: (Cpu, u16))
        requires
            fetch16(*self, memory@) is Some,
        ensures
            fetch16(*self, memory@) == Some(r),
    {
        let mut c = *self;
        let v = c.fetch_imm16(memory);
        (c, v)
    }

    /// Whether serving `interrupt` is supported: with IME set, PC must be pushable.
    pub fn can_service(&self, interrupt: &InterruptSource, memory: &Memory) -> (r: bool)
        ensures
            r == (service_spec(*self, memory@, *interrupt) is Some),
    {
        if !self.ime {
            return true;
        }
        let ghost m1 = MemoryView { registers: memory@.registers.with_acknowledged(*interrupt), ..memory@ };
        proof {
            let sp1 = add16(self.registers.sp, -1);
            let sp2 = add16(sp1, -1);
            let lo = low_byte(self.registers.pc);
            let hi = high_byte(self.registers.pc);
            crate::memory::lemma_write_support_same_layout(memory@, m1, sp1 as int, hi);
            if memory@.write(sp1 as int, hi) is Some {
                crate::memory::lemma_write_support_same_layout(
                    memory@.write(sp1 as int, hi).unwrap(),
                    m1.write(sp1 as int, hi).unwrap(),
                    sp2 as int,
                    lo,
                );
            }
        }
        self.can_push(memory, self.registers.pc)
    }

    /// Whether the next instruction is implemented and its memory accesses are supported.
    pub fn can_step(&self, memory: &Memory) -> (r: bool)
        ensures
            r == (step_spec(*self, memory@) is Some),
    {
        proof {
            reveal(step_spec);
        }
        if !memory.can_read(self.registers.pc) {
            return false;
        }
        let mut c = *self;
        let opcode = c.fetch_imm8(memory);
        if opcode < 0x20 {
            c.can_execute_00_1f(memory, opcode)
        } else if opcode < 0x40 {
            c.can_execute_20_3f(memory, opcode)
        } else if opcode < 0xC0 {
            c.can_execute_40_bf(memory, opcode)
        } else {
            c.can_execute_c0_ff(memory, opcode)
        }
    }

    fn can_execute_00_1f(&self, memory: &Memory, opcode: u8) -> (r: bool)
        ensures
            r == (execute_00_1f(*self, memory@, opcode) is Some),
    {
        let pc = self.registers.pc;
        match opcode {
            0x00 | 0x03 | 0x04 | 0x05 | 0x09 | 0x0B | 0x0C | 0x0D | 0x13 | 0x15 | 0x17 | 0x1C
            | 0x1D | 0x1F => true,
            0x01 | 0x11 => self.can_fetch16(memory),
            0x02 => memory.can_write(self.registers.bc(), self.registers.a),
            0x06 | 0x0E | 0x16 | 0x1E | 0x18 => memory.can_read(pc),
            0x1A => memory.can_read(self.registers.de()),
            _ => false,
        }
    }

    fn can_execute_20_3f(&self, memory: &Memory, opcode: u8) -> (r: bool)
        ensures
            r == (execute_20_3f(*self, memory@, opcode) is Some),
    {
        let pc = self.registers.pc;
        match opcode {
            0x23 | 0x24 | 0x2B | 0x2C | 0x37 | 0x3D => true,
            0x20 | 0x28 | 0x2E | 0x3E => memory.can_read(pc),
            0x21 | 0x31 => self.can_fetch16(memory),
            0x22 | 0x32 => memory.can_write(self.registers.hl(), self.registers.a),
            0x2A => memory.can_read(self.registers.hl()),
            0x36 => memory.can_read(pc) && memory.can_write(self.registers.hl(), memory.read(pc)),
            _ => false,
        }
    }

    fn can_execute_40_bf(&self, memory: &Memory, opcode: u8) -> (r: bool)
        ensures
            r == (execute_40_bf(*self, memory@, opcode) is Some),
    {
        match opcode {
            0x47 | 0x49 | 0x4F | 0x57 | 0x67 | 0x78 | 0x7B | 0x7C | 0x7D | 0x7F | 0x83 | 0x89
            | 0x90 | 0x97 | 0xA1 | 0xA7 | 0xAF | 0xB1 | 0xB5 | 0xBF => true,
            0x66 | 0x7E | 0x86 | 0x96 | 0xBE => memory.can_read(self.registers.hl()),
            0x73 => memory.can_write(self.registers.hl(), self.registers.e),
            0x77 => memory.can_write(self.registers.hl(), self.registers.a),
            _ => false,
        }
    }

    fn can_execute_c0_ff(&self, memory: &Memory, opcode: u8) -> (r: bool)
        ensures
            r == (execute_c0_ff(*self, memory@, opcode) is Some),
    {
        let pc = self.registers.pc;
        match opcode {
            0xC0 => self.flags.z || self.can_pop(memory),
            0xC1 | 0xC9 => self.can_pop(memory),
            0xC3 => self.can_fetch16(memory),
            0xC5 => self.can_push(memory, self.registers.bc()),
            0xD5 => self.can_push(memory, self.registers.de()),
            0xE5 => self.can_push(memory, self.registers.hl()),
            0xF5 => self.can_push(memory, self.register_af()),
            0xCB => memory.can_read(pc) && {
                let op = memory.read(pc);
                op == 0x11 || op == 0x7C
            },
            0xCC | 0xCD => {
                if !self.can_fetch16(memory) {
                    return false;
                }
                if opcode == 0xCC && !self.flags.z {
                    return true;
                }
                let (c, _target) = self.peek16(memory);
                c.can_push(memory, c.registers.pc)
            },
            0xDD | 0xF3 | 0xFB => true,
            0xCE | 0xFE => memory.can_read(pc),
            0xE0 => memory.can_read(pc) && memory.can_write(high_addr(memory.read(pc)), self.registers.a),
            0xE2 => memory.can_write(high_addr(self.registers.c), self.registers.a),
            0xEA => {
                if !self.can_fetch16(memory) {
                    return false;
                }
                let (_c, addr) = self.peek16(memory);
                memory.can_write(addr, self.registers.a)
            },
            0xF0 => memory.can_read(pc) && memory.can_read(high_addr(memory.read(pc))),
            _ => false,
        }
    }

    /// One step when the next instruction is implemented and its memory accesses are
    /// supported; `None`, with nothing changed, otherwise.
    pub fn try_step(&mut self, memory: &mut Memory) -> (r: Option<u8>)
        ensures
            step_spec(*old(self), old(memory)@) matches Some((c, m, cycles)) ==> r == Some(cycles)
                && *final(self) == c && final(memory)@ == m,
            step_spec(*old(self), old(memory)@) is None ==> r is None && *final(self) == *old(self)
                && final(memory)@ == old(memory)@,
    {
        if self.can_step(memory) {
            Some(self.step(memory))
        } else {
            None
        }
    }

    /// Execute one instruction; returns the number of CPU T-cycles the step consumed.
    pub fn step(&mut self, memory: &mut Memory) -> (r: u8)
        requires
            step_spec(*old(self), old(memory)@) is Some,
        ensures
            step_spec(*old(self), old(memory)@) == Some((*final(self), final(memory)@, r)),
    {
        proof {
            reveal(step_spec);
        }
        let opcode = self.fetch_imm8(memory);
        if opcode < 0x20 {
            self.execute_00_1f(memory, opcode)
        } else if opcode < 0x40 {
            self.execute_20_3f(memory, opcode)
        } else if opcode < 0xC0 {
            self.execute_40_bf(memory, opcode)
        } else {
            self.execute_c0_ff(memory, opcode)
        }
    }

    /// The instructions with opcodes 0x00 to 0x1F.
    fn execute_00_1f(&mut self, memory: &mut Memory, opcode: u8) -> (r: u8)
        requires
            execute_00_1f(*old(self), old(memory)@, opcode) is Some,
        ensures
            execute_00_1f(*old(self), old(memory)@, opcode) == Some((*final(self), final(memory)@, r)),
    {
        match opcode {
            0x00 => 4,
            0x01 => {
                let imm16 = self.fetch_imm16(memory);
                self.registers.set_bc(imm16);
                12
            },
            0x02 => {
                memory.write(self.registers.bc(), self.registers.a);
                8
            },
            0x03 => {
                let bc = self.registers.bc();
                self.registers.set_bc(inc16(bc));
                8
            },
            0x04 => {
                let (v, f) = inc(self.registers.b, &self.flags);
                self.registers.b = v;
                self.flags = f;
                4
            },
            0x05 => {
                let (v, f) = dec(self.registers.b, &self.flags);
                self.registers.b = v;
                self.flags = f;
                4
            },
            0x06 => {
                let imm8 = self.fetch_imm8(memory);
                self.registers.b = imm8;
                8
            },
            0x09 => {
                let hl = self.registers.hl();
                let bc = self.registers.bc();
                self.registers.set_hl(add16_wrapping(hl, bc));
                8
            },
            0x0B => {
                let bc = self.registers.bc();
                self.registers.set_bc(dec16(bc));
                8
            },
            0x0C => {
                let (v, f) = inc(self.registers.c, &self.flags);
                self.registers.c = v;
                self.flags = f;
                4
            },
            0x0D => {
                let (v, f) = dec(self.registers.c, &self.flags);
                self.registers.c = v;
                self.flags = f;
                4
            },
            0x0E => {
                let imm8 = self.fetch_imm8(memory);
                self.registers.c = imm8;
                8
            },
            0x11 => {
                let imm16 = self.fetch_imm16(memory);
                self.registers.set_de(imm16);
                12
            },
            0x13 => {
                let de = self.registers.de();
                self.registers.set_de(inc16(de));
                8
            },
            0x15 => {
                let (v, f) = dec(self.registers.d, &self.flags);
                self.registers.d = v;
                self.flags = f;
                4
            },
            0x16 => {
                let imm8 = self.fetch_imm8(memory);
                self.registers.d = imm8;
                8
            },
            0x17 => {
                let (v, f) = rla(self.registers.a, &self.flags);
                self.registers.a = v;
                self.flags = f;
                4
            },
            0x18 => {
                let offset = self.fetch_imm8(memory);
                self.registers.pc = jr(self.registers.pc, offset);
                12
            },
            0x1A => {
                let a = memory.read(self.registers.de());
                self.registers.a = a;
                8
            },
            0x1C => {
                let (v, f) = inc(self.registers.e, &self.flags);
                self.registers.e = v;
                self.flags = f;
                4
            },
            0x1D => {
                let (v, f) = dec(self.registers.e, &self.flags);
                self.registers.e = v;
                self.flags = f;
                4
            },
            0x1E => {
                let imm8 = self.fetch_imm8(memory);
                self.registers.e = imm8;
                8
            },
            0x1F => {
                let (v, f) = rra(self.registers.a, self.flags.c);
                self.registers.a = v;
                self.flags = f;
                4
            },
            _ => {
                proof {
                    assert(false);
                }
                0
            },
        }
    }

    /// The instructions with opcodes 0x20 to 0x3F.
    fn execute_20_3f(&mut self, memory: &mut Memory, opcode: u8) -> (r: u8)
        requires
            execute_20_3f(*old(self), old(memory)@, opcode) is Some,
        ensures
            execute_20_3f(*old(self), old(memory)@, opcode) == Some((*final(self), final(memory)@, r)),
    {
        match opcode {
            0x20 => {
                let offset = self.fetch_imm8(memory);
                if !self.flags.z {
                    self.registers.pc = jr(self.registers.pc, offset);
                    12
                } else {
                    8
                }
            },
            0x21 => {
                let imm16 = self.fetch_imm16(memory);
                self.registers.set_hl(imm16);
                12
            },
            0x22 => {
                let hl = self.registers.hl();
                memory.write(hl, self.registers.a);
                self.registers.set_hl(inc16(hl));
                8
            },
            0x23 => {
                let hl = self.registers.hl();
                self.registers.set_hl(inc16(hl));
                8
            },
            0x24 => {
                let (v, f) = inc(self.registers.h, &self.flags);
                self.registers.h = v;
                self.flags = f;
                4
            },
            0x28 => {
                let offset = self.fetch_imm8(memory);
                if self.flags.z {
                    self.registers.pc = jr(self.registers.pc, offset);
                    12
                } else {
                    8
                }
            },
            0x2A => {
                let hl = self.registers.hl();
                let v = memory.read(hl);
                self.registers.set_hl(inc16(hl));
                self.registers.a = v;
                8
            },
            0x2B => {
                let hl = self.registers.hl();
                self.registers.set_hl(dec16(hl));
                8
            },
            0x2C => {
                let (v, f) = inc(self.registers.l, &self.flags);
                self.registers.l = v;
                self.flags = f;
                4
            },
            0x2E => {
                let imm8 = self.fetch_imm8(memory);
                self.registers.l = imm8;
                8
            },
            0x31 => {
                let imm16 = self.fetch_imm16(memory);
                self.registers.sp = imm16;
                12
            },
            0x32 => {
                let hl = self.registers.hl();
                memory.write(hl, self.registers.a);
                self.registers.set_hl(dec16(hl));
                8
            },
            0x36 => {
                let imm8 = self.fetch_imm8(memory);
                memory.write(self.registers.hl(), imm8);
                12
            },
            0x37 => {
                self.flags.c = true;
                self.flags.n = false;
                self.flags.h = false;
                4
            },
            0x3D => {
                let (v, f) = dec(self.registers.a, &self.flags);
                self.registers.a = v;
                self.flags = f;
                4
            },
            0x3E => {
                let imm8 = self.fetch_imm8(memory);
                self.registers.a = imm8;
                8
            },
            _ => {
                proof {
                    assert(false);
                }
                0
            },
        }
    }

    /// The instructions with opcodes 0x40 to 0xBF.
    fn execute_40_bf(&mut self, memory: &mut Memory, opcode: u8) -> (r: u8)
        requires
            execute_40_bf(*old(self), old(memory)@, opcode) is Some,
        ensures
            execute_40_bf(*old(self), old(memory)@, opcode) == Some((*final(self), final(memory)@, r)),
    {
        match opcode {
            0x47 => {
                self.registers.b = self.registers.a;
                4
            },
            0x49 => 4,
            0x4F => {
                self.registers.c = self.registers.a;
                4
            },
            0x57 => {
                self.registers.d = self.registers.a;
                4
            },
            0x66 => {
                self.registers.h = memory.read(self.registers.hl());
                8
            },
            0x67 => {
                self.registers.h = self.registers.a;
                4
            },
            0x73 => {
                memory.write(self.registers.hl(), self.registers.e);
                8
            },
            0x77 => {
                memory.write(self.registers.hl(), self.registers.a);
                8
            },
            0x78 => {
                self.registers.a = self.registers.b;
                4
            },
            0x7B => {
                self.registers.a = self.registers.e;
                4
            },
            0x7C => {
                self.registers.a = self.registers.h;
                4
            },
            0x7D => {
                self.registers.a = self.registers.l;
                4
            },
            0x7E => {
                self.registers.a = memory.read(self.registers.hl());
                8
            },
            0x7F => 4,
            0x83 => {
                let (v, f) = self::add(self.registers.a, self.registers.e);
                self.registers.a = v;
                self.flags = f;
                4
            },
            0x86 => {
                let value = memory.read(self.registers.hl());
                let (v, f) = self::add(self.registers.a, value);
                self.registers.a = v;
                self.flags = f;
                8
            },
            0x89 => {
                let (v, f) = adc(self.registers.a, self.registers.c, self.flags.c);
                self.registers.a = v;
                self.flags = f;
                4
            },
            0x90 => {
                let (v, f) = self::sub(self.registers.a, self.registers.b);
                self.registers.a = v;
                self.flags = f;
                4
            },
            0x96 => {
                let value = memory.read(self.registers.hl());
                let (v, f) = self::sub(self.registers.a, value);
                self.registers.a = v;
                self.flags = f;
                8
            },
            0x97 => {
                self.registers.a = 0;
                self.flags = Flags { z: true, n: true, h: false, c: false };
                4
            },
            0xA1 => {
                let (v, f) = and(self.registers.a, self.registers.c);
                self.registers.a = v;
                self.flags = f;
                4
            },
            0xA7 => {
                let (v, f) = and(self.registers.a, self.registers.a);
                self.registers.a = v;
                self.flags = f;
                4
            },
            0xAF => {
                let (v, f) = xor(self.registers.a, self.registers.a);
                self.registers.a = v;
                self.flags = f;
                4
            },
            0xB1 => {
                let (v, f) = or(self.registers.a, self.registers.c);
                self.registers.a = v;
                self.flags = f;
                4
            },
            0xB5 => {
                let (v, f) = or(self.registers.a, self.registers.l);
                self.registers.a = v;
                self.flags = f;
                4
            },
            0xBE => {
                let value = memory.read(self.registers.hl());
                self.flags = cp(self.registers.a, value);
                8
            },
            0xBF => {
                self.flags = cp(self.registers.a, self.registers.a);
                4
            },
            _ => {
                proof {
                    assert(false);
                }
                0
            },
        }
    }

    /// The instructions with opcodes 0xC0 to 0xFF.
    fn execute_c0_ff(&mut self, memory: &mut Memory, opcode: u8) -> (r: u8)
        requires
            execute_c0_ff(*old(self), old(memory)@, opcode) is Some,
        ensures
            execute_c0_ff(*old(self), old(memory)@, opcode) == Some((*final(self), final(memory)@, r)),
    {
        match opcode {
            0xC0 => {
                if !self.flags.z {
                    let addr = self.pop_16stk(memory);
                    self.registers.pc = addr;
                    20
                } else {
                    8
                }
            },
            0xC1 => {
                let value = self.pop_16stk(memory);
                self.registers.set_bc(value);
                12
            },
            0xC3 => {
                let imm16 = self.fetch_imm16(memory);
                self.registers.pc = imm16;
                16
            },
            0xC5 => {
                self.push_16stk(self.registers.bc(), memory);
                16
            },
            0xC9 => {
                let ret_addr = self.pop_16stk(memory);
                self.registers.pc = ret_addr;
                16
            },
            0xCB => {
                self.step_prefixed(memory)
            },
            0xCC => {
                let imm16 = self.fetch_imm16(memory);
                if self.flags.z {
                    let return_addr = self.registers.pc;
                    self.push_16stk(return_addr, memory);
                    self.registers.pc = imm16;
                    24
                } else {
                    12
                }
            },
            0xCE => {
                let imm8 = self.fetch_imm8(memory);
                let (v, f) = adc(self.registers.a, imm8, self.flags.c);
                self.registers.a = v;
                self.flags = f;
                8
            },
            0xCD => {
                let imm16 = self.fetch_imm16(memory);
                let return_addr = self.registers.pc;
                self.push_16stk(return_addr, memory);
                self.registers.pc = imm16;
                24
            },
            0xD5 => {
                self.push_16stk(self.registers.de(), memory);
                16
            },
            0xDD => 4,
            0xE0 => {
                let imm8 = self.fetch_imm8(memory);
                memory.write(high_addr(imm8), self.registers.a);
                12
            },
            0xE2 => {
                memory.write(high_addr(self.registers.c), self.registers.a);
                8
            },
            0xE5 => {
                self.push_16stk(self.registers.hl(), memory);
                16
            },
            0xEA => {
                let addr = self.fetch_imm16(memory);
                memory.write(addr, self.registers.a);
                16
            },
            0xF0 => {
                let imm8 = self.fetch_imm8(memory);
                self.registers.a = memory.read(high_addr(imm8));
                12
            },
            0xF3 => {
                self.ime = false;
                4
            },
            0xF5 => {
                self.push_16stk(self.register_af(), memory);
                16
            },
            0xFB => {
                self.ime = true;
                4
            },
            0xFE => {
                let imm8 = self.fetch_imm8(memory);
                self.flags = cp(self.registers.a, imm8);
                8
            },
            _ => {
                proof {
                    assert(false);
                }
                0
            },
        }
    }

    fn step_prefixed(&mut self, memory: &mut Memory) -> (r: u8)
        requires
            match fetch8(*old(self), old(memory)@) {
                Some((c, op)) => execute_prefixed(c, old(memory)@, op) is Some,
                None => false,
            },
        ensures
            final(memory)@ == old(memory)@,
            match fetch8(*old(self), old(memory)@) {
                Some((c, op)) => execute_prefixed(c, old(memory)@, op) == Some(
                    (*final(self), final(memory)@, r),
                ),
                None => false,
            },
    {
        let opcode = self.fetch_imm8(memory);
        match opcode {
            0x11 => {
                let (v, f) = rl(self.registers.c, &self.flags, true);
                self.registers.c = v;
                self.flags = f;
                8
            },
            0x7C => {
                self.flags.z = !is_nth_bit_set(self.registers.h, 7);
                self.flags.n = false;
                self.flags.h = true;
                8
            },
            _ => {
                proof {
                    assert(false);
                }
                0
            },
        }
    }
}

/// `x + 1` on 16 bits, wrapping around.
fn inc16(x: u16) -> (r: u16)
    ensures
        r == add16(x, 1),
{
    proof {
        reveal(add16);
    }
    x.wrapping_add(1)
}

/// `x - 1` on 16 bits, wrapping around.
fn dec16(x: u16) -> (r: u16)
    ensures
        r == add16(x, -1),
{
    proof {
        reveal(add16);
    }
    x.wrapping_sub(1)
}

/// `x + y` on 16 bits, wrapping around.
fn add16_wrapping(x: u16, y: u16) -> (r: u16)
    ensures
        r == add16(x, y as int),
{
    proof {
        reveal(add16);
    }
    x.wrapping_add(y)
}

/// Split a 16-bit value into low and high bytes (little-endian)
fn split_u16(value: u16) -> (r: (u8, u8))
    ensures
        r == (low_byte(value), high_byte(value)),
{
    reveal(low_byte);
    reveal(high_byte);
    let lo = (value & 0x00FF) as u8;
    let hi = (value >> 8) as u8;
    assert(lo == value % 256 && hi == value / 256) by (bit_vector)
        requires
            lo == (value & 0x00FF) as u8,
            hi == (value >> 8) as u8,
    ;
    (lo, hi)
}

/// Join low and high bytes into a 16-bit value (little-endian)
fn join_u16(lo: u8, hi: u8) -> (r: u16)
    ensures
        r == join(lo, hi),
{
    reveal(join);
    let r = ((hi as u16) << 8) | (lo as u16);
    assert(r == hi * 256 + lo) by (bit_vector)
        requires
            r == ((hi as u16) << 8) | (lo as u16),
    ;
    r
}

fn adc(a: u8, b: u8, carry: bool) -> (r: (u8, Flags))
    ensures
        r == adc_spec(a, b, carry),
{
    let carry_in: u16 = if carry {
        1
    } else {
        0
    };
    let sum: u16 = a as u16 + b as u16 + carry_in;
    let result = (sum % 256) as u8;
    let half_carry = (a & 0x0F) as u16 + (b & 0x0F) as u16 + carry_in > 0x0F;
    let flags = Flags { z: result == 0, n: false, h: half_carry, c: sum > 0xFF };
    (result, flags)
}

fn dec(a: u8, flags: &Flags) -> (r: (u8, Flags))
    ensures
        r == dec_spec(a, *flags),
{
    let result = a.wrapping_sub(1);
    let flags = Flags { h: a & 0x0F == 0, z: result == 0, n: true, c: flags.c };
    (result, flags)
}

fn inc(a: u8, flags: &Flags) -> (r: (u8, Flags))
    ensures
        r == inc_spec(a, *flags),
{
    let result = a.wrapping_add(1);
    let flags = Flags { z: result == 0, c: flags.c, n: false, h: (a & 0x0F) as u16 + 1 > 0x0F };
    (result, flags)
}

fn xor(a: u8, b: u8) -> (r: (u8, Flags))
    ensures
        r == xor_spec(a, b),
{
    let result = a ^ b;
    let flags = Flags { z: result == 0, n: false, h: false, c: false };
    (result, flags)
}

fn or(a: u8, b: u8) -> (r: (u8, Flags))
    ensures
        r == or_spec(a, b),
{
    let result = a | b;
    let flags = Flags { z: result == 0, n: false, h: false, c: false };
    (result, flags)
}

fn cp(a: u8, b: u8) -> (r: Flags)
    ensures
        r == cp_spec(a, b),
{
    let result = a.wrapping_sub(b);
    Flags { z: result == 0, n: true, h: (a & 0x0F) < (b & 0x0F), c: a < b }
}

fn and(a: u8, b: u8) -> (r: (u8, Flags))
    ensures
        r == and_spec(a, b),
{
    let result = a & b;
    let flags = Flags { n: false, c: false, h: true, z: result == 0 };
    (result, flags)
}

/// Rotate left through carry for an 8-bit value.
/// If `set_z_flag` is false (e.g. for `RL A`), Z flag is not updated.
fn rl(value: u8, flags: &Flags, set_z_flag: bool) -> (r: (u8, Flags))
    ensures
        r == rl_spec(value, *flags, set_z_flag),
{
    let bit7 = (value & 0x80) != 0;
    let carry_in: u8 = if flags.c {
        1
    } else {
        0
    };
    let result = (value << 1) | carry_in;
    let mut new_flags = *flags;
    if set_z_flag {
        new_flags.z = result == 0;
    }
    new_flags.n = false;
    new_flags.h = false;
    new_flags.c = bit7;
    (result, new_flags)
}

fn jr(pc: u16, offset: u8) -> (r: u16)
    ensures
        r == jr_spec(pc, offset),
{
    reveal(add16);
    if offset < 128 {
        pc.wrapping_add(offset as u16)
    } else {
        pc.wrapping_sub(256 - offset as u16)
    }
}

fn rla(a: u8, flags: &Flags) -> (r: (u8, Flags))
    ensures
        r == rla_spec(a, *flags),
{
    let old_carry: u8 = if flags.c {
        1
    } else {
        0
    };
    let new_carry = (a & 0x80) != 0;
    let result = (a << 1) | old_carry;
    let new_flags = Flags { z: false, n: false, h: false, c: new_carry };
    (result, new_flags)
}

fn sub(a: u8, b: u8) -> (r: (u8, Flags))
    ensures
        r == sub_spec(a, b),
{
    let result = a.wrapping_sub(b);
    let z = result == 0;
    let n = true;
    let h = (a & 0x0F) < (b & 0x0F);
    let c = a < b;
    (result, Flags { z, n, h, c })
}

/// Perform an 8-bit addition like ADD A, r/imm/(HL).
fn add(a: u8, val: u8) -> (r: (u8, Flags))
    ensures
        r == add_spec(a, val),
{
    let res = a.wrapping_add(val);
    let carry = a as u16 + val as u16 > 0xFF;
    let half_carry = ((a & 0x0F) as u16 + (val & 0x0F) as u16) > 0x0F;
    let flags = Flags { z: res == 0, n: false, h: half_carry, c: carry };
    (res, flags)
}

fn rra(a: u8, carry_in: bool) -> (r: (u8, Flags))
    ensures
        r == rra_spec(a, carry_in),
{
    let new_c = (a & 0x01) != 0;
    let result = (a >> 1) | if carry_in {
        0x80
    } else {
        0x00
    };
    let flags = Flags { z: false, n: false, h: false, c: new_c };
    (result, flags)
}

fn high_addr(offset: u8) -> (r: u16)
    ensures
        r == high_address(offset),
{
    (offset as u16) + HIGH_ADDRESS
}

} // verus!

verus! {

/// Splitting a 16-bit value into its bytes and joining them back gives the value, and joining
/// two bytes and splitting the result gives the bytes.
pub proof fn lemma_split_join(value: u16, lo: u8, hi: u8)
    ensures
        join(low_byte(value), high_byte(value)) == value,
        low_byte(join(lo, hi)) == lo,
        high_byte(join(lo, hi)) == hi,
{
    reveal(join);
    reveal(low_byte);
    reveal(high_byte);
}

/// Reading a register pair gives back the 16-bit value last written to it.
pub proof fn lemma_register_pair_roundtrip(r: Registers, value: u16)
    ensures
        r.with_bc(value).bc_value() == value,
        r.with_de(value).de_value() == value,
        r.with_hl(value).hl_value() == value,
{
    lemma_split_join(value, 0, 0);
}

/// Popping right after a push gives back the pushed value and restores SP, when the two stack
/// bytes lie in RAM.
pub proof fn lemma_push_pop(cpu: Cpu, mem: MemoryView, value: u16)
    requires
        mem.wf(),
        is_ram_address(add16(cpu.registers.sp, -1) as int),
        is_ram_address(add16(cpu.registers.sp, -2) as int),
    ensures
        push(cpu, mem, value) is Some,
        pop(push(cpu, mem, value).unwrap().0, push(cpu, mem, value).unwrap().1) == Some(
            (cpu, value),
        ),
{
    reveal(add16);
    let sp = cpu.registers.sp;
    let sp1 = add16(sp, -1);
    let sp2 = add16(sp1, -1);
    assert(sp2 == add16(sp, -2));
    lemma_ram_read_after_write(mem, sp1 as int, high_byte(value));
    let m1 = mem.write(sp1 as int, high_byte(value)).unwrap();
    assert(m1.wf()) by {
        reveal(MemoryView::write);
    }
    lemma_ram_read_after_write(m1, sp2 as int, low_byte(value));
    let m2 = m1.write(sp2 as int, low_byte(value)).unwrap();
    lemma_write_leaves_other_reads(m1, sp2 as int, sp1 as int, low_byte(value));
    assert(add16(sp2, 1) == sp1);
    assert(add16(sp2, 2) == sp);
    lemma_split_join(value, 0, 0);
    let c2 = cpu.with_sp(sp2);
    assert(c2.with_sp(add16(sp2, 2)) == cpu);
}

/// After an interrupt is served with IME set, a RET returns to the interrupted instruction,
/// when the two stack bytes lie in RAM.
pub proof fn lemma_service_then_return(cpu: Cpu, mem: MemoryView, source: InterruptSource)
    requires
        mem.wf(),
        cpu.ime,
        is_ram_address(add16(cpu.registers.sp, -1) as int),
        is_ram_address(add16(cpu.registers.sp, -2) as int),
    ensures
        service_spec(cpu, mem, source) is Some,
        service_spec(cpu, mem, source).unwrap().0.registers.pc == source.vector(),
        !service_spec(cpu, mem, source).unwrap().0.ime,
        pop(service_spec(cpu, mem, source).unwrap().0, service_spec(cpu, mem, source).unwrap().1)
            == Some((Cpu { ime: false, ..cpu.with_pc(source.vector()) }, cpu.registers.pc)),
{
    let m1 = MemoryView { registers: mem.registers.with_acknowledged(source), ..mem };
    lemma_push_pop(cpu, m1, cpu.registers.pc);
    let (c2, m2) = push(cpu, m1, cpu.registers.pc).unwrap();
    let c3 = Cpu { ime: false, ..c2.with_pc(source.vector()) };
    assert(pop(c2, m2) == Some((cpu, cpu.registers.pc)));
    assert(c3.registers.sp == c2.registers.sp);
    assert(pop(c3, m2) == Some((c3.with_sp(cpu.registers.sp), cpu.registers.pc)));
}

} // verus!

verus! {

/// A step at a PUSH DE opcode pushes DE and takes 16 T-cycles.
proof fn lemma_step_push_de(cpu: Cpu, mem: MemoryView)
    requires
        mem.read(cpu.registers.pc as int) == Some(0xD5u8),
    ensures
        step_spec(cpu, mem) == (match push(
            cpu.with_pc(add16(cpu.registers.pc, 1)),
            mem,
            cpu.registers.de_value(),
        ) {
            Some((c, m)) => Some((c, m, 16u8)),
            None => None,
        }),
{
    reveal(step_spec);
    let c0 = cpu.with_pc(add16(cpu.registers.pc, 1));
    assert(step_spec(cpu, mem) == execute_c0_ff(c0, mem, 0xD5));
}

/// A step at a POP BC opcode pops into BC and takes 12 T-cycles.
proof fn lemma_step_pop_bc(cpu: Cpu, mem: MemoryView)
    requires
        mem.read(cpu.registers.pc as int) == Some(0xC1u8),
    ensures
        step_spec(cpu, mem) == (match pop(cpu.with_pc(add16(cpu.registers.pc, 1)), mem) {
            Some((c, v)) => Some((c.with_registers(c.registers.with_bc(v)), mem, 12u8)),
            None => None,
        }),
{
    reveal(step_spec);
    let c0 = cpu.with_pc(add16(cpu.registers.pc, 1));
    assert(step_spec(cpu, mem) == execute_c0_ff(c0, mem, 0xC1));
}

/// PUSH DE followed by POP BC copies DE into BC: the first step takes 16 T-cycles, the second
/// 12, SP is back where it was and PC has moved past both one-byte instructions; nothing else
/// of the CPU changes. This holds when the two stack bytes lie in RAM and the POP opcode is not
/// one of them.
pub proof fn lemma_push_de_pop_bc(cpu: Cpu, mem: MemoryView)
    requires
        mem.wf(),
        mem.read(cpu.registers.pc as int) == Some(0xD5u8),
        mem.read(add16(cpu.registers.pc, 1) as int) == Some(0xC1u8),
        is_ram_address(add16(cpu.registers.sp, -1) as int),
        is_ram_address(add16(cpu.registers.sp, -2) as int),
        add16(cpu.registers.pc, 1) != add16(cpu.registers.sp, -1),
        add16(cpu.registers.pc, 1) != add16(cpu.registers.sp, -2),
    ensures
        step_spec(cpu, mem) is Some,
        step_spec(cpu, mem).unwrap().2 == 16,
        step_spec(step_spec(cpu, mem).unwrap().0, step_spec(cpu, mem).unwrap().1) == Some(
            (
                cpu.with_registers(
                    Registers {
                        pc: add16(cpu.registers.pc, 2),
                        ..cpu.registers.with_bc(cpu.registers.de_value())
                    },
                ),
                step_spec(cpu, mem).unwrap().1,
                12u8,
            ),
        ),
{
    let pc = cpu.registers.pc;
    let sp = cpu.registers.sp;
    let de = cpu.registers.de_value();
    let c0 = cpu.with_pc(add16(pc, 1));
    lemma_step_push_de(cpu, mem);
    lemma_push_pop(c0, mem, de);
    let (c1, m1) = push(c0, mem, de).unwrap();
    assert(step_spec(cpu, mem) == Some((c1, m1, 16u8)));
    // The POP opcode is still there after the push.
    let sp1 = add16(sp, -1);
    let sp2 = add16(sp1, -1);
    reveal(add16);
    assert(sp2 == add16(sp, -2));
    let ma = mem.write(sp1 as int, high_byte(de)).unwrap();
    lemma_write_leaves_other_reads(mem, sp1 as int, add16(pc, 1) as int, high_byte(de));
    assert(ma.wf()) by {
        reveal(MemoryView::write);
    }
    lemma_write_leaves_other_reads(ma, sp2 as int, add16(pc, 1) as int, low_byte(de));
    assert(m1.read(add16(pc, 1) as int) == Some(0xC1u8));
    let c1b = c1.with_pc(add16(add16(pc, 1), 1));
    assert(add16(add16(pc, 1), 1) == add16(pc, 2));
    lemma_step_pop_bc(c1, m1);
    // The pop reads back DE and restores SP.
    assert(c1.registers.sp == sp2);
    assert(pop(c1, m1) == Some((c0, de)));
    assert(pop(c1b, m1) == Some((c1b.with_sp(sp), de)));
    lemma_register_pair_roundtrip(cpu.registers, de);
}

} // verus!
