//! Properties of the CPU stated in plain arithmetic on register and memory contents, apart
//! from the instruction table that defines each step.
use vstd::prelude::*;

use crate::cpu::{
    add16, execute_00_1f, execute_20_3f, execute_40_bf, execute_c0_ff, fetch8, high_byte, join,
    low_byte, service_spec, step_spec, Cpu, Flags, Registers,
};
use crate::interrupt::InterruptSource;
use crate::memory::{is_ram_address, lemma_ram_read_after_write, lemma_write_leaves_other_reads, MemoryView};
use crate::registers::is_register_address;
use crate::util::nth_bit;

verus! {

/// The 16-bit value of the register pair with high byte `hi` and low byte `lo`.
pub open spec fn pair(hi: u8, lo: u8) -> int {
    hi * 256 + lo
}

/// Joining and splitting 16-bit values is the arithmetic of bytes.
proof fn lemma_byte_arithmetic(x: u16, lo: u8, hi: u8, d: int)
    ensures
        join(lo, hi) == pair(hi, lo),
        pair(high_byte(x), low_byte(x)) == x,
        add16(x, d) == (x + d) % 0x10000,
{
    reveal(join);
    reveal(low_byte);
    reveal(high_byte);
    reveal(add16);
}

/// LD A, (HL+): A takes the byte at the old HL, HL moves up by one (wrapping at 0x10000) and
/// PC moves past the opcode, in 8 T-cycles; nothing else changes.
pub proof fn lemma_ld_a_hl_increment(cpu: Cpu, mem: MemoryView, v: u8)
    requires
        mem.read(cpu.registers.pc as int) == Some(0x2Au8),
        mem.read(pair(cpu.registers.h, cpu.registers.l)) == Some(v),
    ensures
        step_spec(cpu, mem) is Some,
        ({
            let (c, m, t) = step_spec(cpu, mem).unwrap();
            &&& t == 8
            &&& m == mem
            &&& c.registers.a == v
            &&& pair(c.registers.h, c.registers.l) == (pair(cpu.registers.h, cpu.registers.l) + 1)
                % 0x10000
            &&& c.registers.pc == (cpu.registers.pc + 1) % 0x10000
            &&& c.registers.sp == cpu.registers.sp
            &&& c.registers.b == cpu.registers.b && c.registers.c == cpu.registers.c
            &&& c.registers.d == cpu.registers.d && c.registers.e == cpu.registers.e
            &&& c.flags == cpu.flags && c.ime == cpu.ime
        }),
{
    reveal(step_spec);
    let r = cpu.registers;
    let c0 = cpu.with_pc(add16(r.pc, 1));
    assert(step_spec(cpu, mem) == execute_20_3f(c0, mem, 0x2A));
    lemma_byte_arithmetic(r.pc, r.l, r.h, 1);
    let hl = r.hl_value();
    lemma_byte_arithmetic(hl, r.l, r.h, 1);
    lemma_byte_arithmetic(add16(hl, 1), r.l, r.h, 1);
}

/// A write to an address that no hardware register backs leaves the registers alone.
proof fn lemma_write_elsewhere_keeps_registers(m: MemoryView, address: int, value: u8)
    requires
        !is_register_address(address),
        m.write(address, value) is Some,
    ensures
        m.write(address, value).unwrap().registers == m.registers,
{
    reveal(MemoryView::write);
}

/// The handler address of each interrupt.
pub open spec fn handler_address(source: InterruptSource) -> int {
    match source {
        InterruptSource::VBlank => 0x40,
        InterruptSource::Stat => 0x48,
        InterruptSource::Timer => 0x50,
        InterruptSource::Serial => 0x58,
        InterruptSource::Joypad => 0x60,
    }
}

/// The IF and IE bit of each interrupt.
pub open spec fn flag_bit(source: InterruptSource) -> u8 {
    match source {
        InterruptSource::VBlank => 0,
        InterruptSource::Stat => 1,
        InterruptSource::Timer => 2,
        InterruptSource::Serial => 3,
        InterruptSource::Joypad => 4,
    }
}

/// Serving an interrupt with IME set, when the two stack bytes are not hardware registers:
/// IF loses the served interrupt's bit and keeps every other bit, no other register changes,
/// IME is cleared, SP moves down by two, PC jumps to the interrupt's handler, and nothing
/// else of the CPU changes. When the stack bytes lie in RAM they hold the old PC, low byte at
/// the new SP. With IME clear nothing changes.
#[verifier::spinoff_prover]
#[verifier::rlimit(30)]
pub proof fn lemma_service_acknowledges_only_its_request(cpu: Cpu, mem: MemoryView, source: InterruptSource)
    requires
        mem.wf(),
        service_spec(cpu, mem, source) is Some,
        cpu.ime ==> !is_register_address((cpu.registers.sp + 0x10000 - 1) % 0x10000),
        cpu.ime ==> !is_register_address((cpu.registers.sp + 0x10000 - 2) % 0x10000),
    ensures
        !cpu.ime ==> service_spec(cpu, mem, source) == Some((cpu, mem)),
        cpu.ime ==> ({
            let (c, m) = service_spec(cpu, mem, source).unwrap();
            let b = flag_bit(source);
            let sp = cpu.registers.sp;
            let pc = cpu.registers.pc;
            &&& (m.registers.if_ >> b) & 1u8 == 0u8
            &&& forall|k: u8| k < 8 && k != b ==> #[trigger] ((m.registers.if_ >> k) & 1u8) == (
                mem.registers.if_ >> k) & 1u8
            &&& m.registers == (crate::registers::Registers { if_: m.registers.if_, ..mem.registers })
            &&& !c.ime
            &&& c.registers.pc == handler_address(source)
            &&& c.registers.sp == (sp + 0x10000 - 2) % 0x10000
            &&& c.registers == (Registers { pc: c.registers.pc, sp: c.registers.sp, ..cpu.registers })
            &&& c.flags == cpu.flags
            &&& (is_ram_address((sp + 0x10000 - 1) % 0x10000) && is_ram_address(
                (sp + 0x10000 - 2) % 0x10000,
            )) ==> m.read((sp + 0x10000 - 2) % 0x10000) == Some((pc % 256) as u8) && m.read(
                (sp + 0x10000 - 1) % 0x10000,
            ) == Some((pc / 256) as u8)
        }),
{
    if cpu.ime {
        let sp = cpu.registers.sp;
        let pc = cpu.registers.pc;
        let m1 = MemoryView { registers: mem.registers.with_acknowledged(source), ..mem };
        let sp1 = add16(sp, -1);
        let sp2 = add16(sp1, -1);
        lemma_byte_arithmetic(sp, 0, 0, -1);
        lemma_byte_arithmetic(sp1, 0, 0, -1);
        lemma_byte_arithmetic(pc, 0, 0, 0);
        reveal(low_byte);
        reveal(high_byte);
        let ma = m1.write(sp1 as int, high_byte(pc)).unwrap();
        lemma_write_elsewhere_keeps_registers(m1, sp1 as int, high_byte(pc));
        lemma_write_elsewhere_keeps_registers(ma, sp2 as int, low_byte(pc));
        let (c, m) = service_spec(cpu, mem, source).unwrap();
        assert(m.registers == m1.registers);
        let x = mem.registers.if_;
        let b = flag_bit(source);
        assert(b as nat == source.bit());
        assert(m.registers.if_ == x & !(1u8 << b));
        assert((x & !(1u8 << b)) >> b & 1u8 == 0u8) by (bit_vector)
            requires
                b < 8,
        ;
        assert forall|k: u8| k < 8 && k != b implies #[trigger] ((m.registers.if_ >> k) & 1u8) == (
            x >> k) & 1u8 by {
            assert(((x & !(1u8 << b)) >> k) & 1u8 == (x >> k) & 1u8) by (bit_vector)
                requires
                    b < 8,
                    k < 8,
                    k != b,
            ;
        }
        if is_ram_address(sp1 as int) && is_ram_address(sp2 as int) {
            assert(m1.wf());
            lemma_ram_read_after_write(m1, sp1 as int, high_byte(pc));
            assert(ma.wf()) by {
                reveal(MemoryView::write);
            }
            lemma_ram_read_after_write(ma, sp2 as int, low_byte(pc));
            lemma_write_leaves_other_reads(ma, sp2 as int, sp1 as int, low_byte(pc));
        }
    }
}

/// The 8-bit register with index `i` in the opcode encoding: 0 B, 1 C, 2 D, 3 E, 4 H, 5 L,
/// 7 A (6 stands for the byte at HL).
pub open spec fn reg8(r: Registers, i: u8) -> u8 {
    if i == 0 {
        r.b
    } else if i == 1 {
        r.c
    } else if i == 2 {
        r.d
    } else if i == 3 {
        r.e
    } else if i == 4 {
        r.h
    } else if i == 5 {
        r.l
    } else {
        r.a
    }
}

/// The operand with index `i` in the opcode encoding: a register, or for 6 the byte at HL.
pub open spec fn operand8(cpu: Cpu, mem: MemoryView, i: u8) -> Option<u8> {
    if i == 6 {
        mem.read(pair(cpu.registers.h, cpu.registers.l))
    } else {
        Some(reg8(cpu.registers, i))
    }
}

/// The 8-bit arithmetic and logic of the opcodes 0x80-0xBF on A and `x`: operation `op`
/// (0 ADD, 1 ADC, 2 SUB, 3 SBC, 4 AND, 5 XOR, 6 OR, 7 CP) gives the new A and the flags.
/// Z: the result is zero; N: a subtraction; H: a carry out of bit 3 (borrow into it); C: a
/// carry out of bit 7 (a borrow). CP computes the flags of SUB and leaves A alone.
pub open spec fn alu8(op: u8, a: u8, x: u8, carry: bool) -> (u8, Flags) {
    let cin: int = if carry {
        1
    } else {
        0
    };
    if op == 0 || op == 1 {
        let k: int = if op == 1 {
            cin
        } else {
            0
        };
        let res = ((a + x + k) % 256) as u8;
        (res, Flags { z: res == 0, n: false, h: a % 16 + x % 16 + k > 15, c: a + x + k > 255 })
    } else if op == 2 || op == 3 || op == 7 {
        let k: int = if op == 3 {
            cin
        } else {
            0
        };
        let res = ((a - x - k + 512) % 256) as u8;
        (
            if op == 7 {
                a
            } else {
                res
            },
            Flags { z: res == 0, n: true, h: a % 16 < x % 16 + k, c: a < x + k },
        )
    } else {
        let res = if op == 4 {
            a & x
        } else if op == 5 {
            a ^ x
        } else {
            a | x
        };
        (res, Flags { z: res == 0, n: false, h: op == 4, c: false })
    }
}

/// Byte arithmetic that the ALU uses.
proof fn lemma_alu_arithmetic(a: u8, x: u8)
    ensures
        a & 0x0Fu8 == a % 16,
        x & 0x0Fu8 == x % 16,
        ((a - x) % 256) == (a - x + 512) % 256,
        (((a - x + 512) % 256) as u8 == 0) == (a == x),
{
    assert(
        (a & 0x0Fu8 == a % 16)
        && (x & 0x0Fu8 == x % 16)
    ) by (bit_vector);
}

/// What an opcode 0x80-0xBF does, as its bits say: the operand that its low three bits name
/// (B, C, D, E, H, L, the byte at HL, A) is combined with A by the operation that bits 3-5
/// name (ADD, ADC, SUB, SBC, AND, XOR, OR, CP); A and the flags take the result, PC moves
/// past the opcode, and the step takes 4 T-cycles, 8 with the byte at HL; nothing else
/// changes.
pub open spec fn alu_step_is(cpu: Cpu, mem: MemoryView, op: u8, step: (Cpu, MemoryView, u8)) -> bool {
    let (c, m, t) = step;
    &&& operand8(cpu, mem, op % 8) is Some
    &&& m == mem
    &&& t == (if op % 8 == 6 {
        8u8
    } else {
        4u8
    })
    &&& c.registers == (Registers {
        a: alu8((op / 8) % 8, cpu.registers.a, operand8(cpu, mem, op % 8).unwrap(), cpu.flags.c).0,
        pc: ((cpu.registers.pc + 1) % 0x10000) as u16,
        ..cpu.registers
    })
    &&& c.flags == alu8((op / 8) % 8, cpu.registers.a, operand8(cpu, mem, op % 8).unwrap(), cpu.flags.c).1
    &&& c.ime == cpu.ime
}

#[verifier::spinoff_prover]
#[verifier::rlimit(30)]
proof fn lemma_add_a_e(cpu: Cpu, mem: MemoryView)
    requires
        mem.read(cpu.registers.pc as int) == Some(0x83u8),
        step_spec(cpu, mem) is Some,
    ensures
        alu_step_is(cpu, mem, 0x83, step_spec(cpu, mem).unwrap()),
{
    reveal(step_spec);
    let r = cpu.registers;
    let c0 = cpu.with_pc(add16(r.pc, 1));
    assert(step_spec(cpu, mem) == execute_40_bf(c0, mem, 0x83));
    lemma_byte_arithmetic(r.pc, r.l, r.h, 1);
    let x = operand8(cpu, mem, 0x83u8 % 8);
    if x is Some {
        lemma_alu_arithmetic(r.a, x.unwrap());
    }
}

#[verifier::spinoff_prover]
#[verifier::rlimit(30)]
proof fn lemma_add_a_hl(cpu: Cpu, mem: MemoryView)
    requires
        mem.read(cpu.registers.pc as int) == Some(0x86u8),
        step_spec(cpu, mem) is Some,
    ensures
        alu_step_is(cpu, mem, 0x86, step_spec(cpu, mem).unwrap()),
{
    reveal(step_spec);
    let r = cpu.registers;
    let c0 = cpu.with_pc(add16(r.pc, 1));
    assert(step_spec(cpu, mem) == execute_40_bf(c0, mem, 0x86));
    lemma_byte_arithmetic(r.pc, r.l, r.h, 1);
    let x = operand8(cpu, mem, 0x86u8 % 8);
    if x is Some {
        lemma_alu_arithmetic(r.a, x.unwrap());
    }
}

#[verifier::spinoff_prover]
#[verifier::rlimit(30)]
proof fn lemma_adc_a_c(cpu: Cpu, mem: MemoryView)
    requires
        mem.read(cpu.registers.pc as int) == Some(0x89u8),
        step_spec(cpu, mem) is Some,
    ensures
        alu_step_is(cpu, mem, 0x89, step_spec(cpu, mem).unwrap()),
{
    reveal(step_spec);
    let r = cpu.registers;
    let c0 = cpu.with_pc(add16(r.pc, 1));
    assert(step_spec(cpu, mem) == execute_40_bf(c0, mem, 0x89));
    lemma_byte_arithmetic(r.pc, r.l, r.h, 1);
    let x = operand8(cpu, mem, 0x89u8 % 8);
    if x is Some {
        lemma_alu_arithmetic(r.a, x.unwrap());
    }
}

#[verifier::spinoff_prover]
#[verifier::rlimit(30)]
proof fn lemma_sub_a_b(cpu: Cpu, mem: MemoryView)
    requires
        mem.read(cpu.registers.pc as int) == Some(0x90u8),
        step_spec(cpu, mem) is Some,
    ensures
        alu_step_is(cpu, mem, 0x90, step_spec(cpu, mem).unwrap()),
{
    reveal(step_spec);
    let r = cpu.registers;
    let c0 = cpu.with_pc(add16(r.pc, 1));
    assert(step_spec(cpu, mem) == execute_40_bf(c0, mem, 0x90));
    lemma_byte_arithmetic(r.pc, r.l, r.h, 1);
    let x = operand8(cpu, mem, 0x90u8 % 8);
    if x is Some {
        lemma_alu_arithmetic(r.a, x.unwrap());
    }
}

#[verifier::spinoff_prover]
#[verifier::rlimit(30)]
proof fn lemma_sub_a_hl(cpu: Cpu, mem: MemoryView)
    requires
        mem.read(cpu.registers.pc as int) == Some(0x96u8),
        step_spec(cpu, mem) is Some,
    ensures
        alu_step_is(cpu, mem, 0x96, step_spec(cpu, mem).unwrap()),
{
    reveal(step_spec);
    let r = cpu.registers;
    let c0 = cpu.with_pc(add16(r.pc, 1));
    assert(step_spec(cpu, mem) == execute_40_bf(c0, mem, 0x96));
    lemma_byte_arithmetic(r.pc, r.l, r.h, 1);
    let x = operand8(cpu, mem, 0x96u8 % 8);
    if x is Some {
        lemma_alu_arithmetic(r.a, x.unwrap());
    }
}

#[verifier::spinoff_prover]
#[verifier::rlimit(30)]
proof fn lemma_sub_a_a(cpu: Cpu, mem: MemoryView)
    requires
        mem.read(cpu.registers.pc as int) == Some(0x97u8),
        step_spec(cpu, mem) is Some,
    ensures
        alu_step_is(cpu, mem, 0x97, step_spec(cpu, mem).unwrap()),
{
    reveal(step_spec);
    let r = cpu.registers;
    let c0 = cpu.with_pc(add16(r.pc, 1));
    assert(step_spec(cpu, mem) == execute_40_bf(c0, mem, 0x97));
    lemma_byte_arithmetic(r.pc, r.l, r.h, 1);
    let x = operand8(cpu, mem, 0x97u8 % 8);
    if x is Some {
        lemma_alu_arithmetic(r.a, x.unwrap());
    }
}

#[verifier::spinoff_prover]
#[verifier::rlimit(30)]
proof fn lemma_and_a_c(cpu: Cpu, mem: MemoryView)
    requires
        mem.read(cpu.registers.pc as int) == Some(0xA1u8),
        step_spec(cpu, mem) is Some,
    ensures
        alu_step_is(cpu, mem, 0xA1, step_spec(cpu, mem).unwrap()),
{
    reveal(step_spec);
    let r = cpu.registers;
    let c0 = cpu.with_pc(add16(r.pc, 1));
    assert(step_spec(cpu, mem) == execute_40_bf(c0, mem, 0xA1));
    lemma_byte_arithmetic(r.pc, r.l, r.h, 1);
    let x = operand8(cpu, mem, 0xA1u8 % 8);
    if x is Some {
        lemma_alu_arithmetic(r.a, x.unwrap());
    }
}

#[verifier::spinoff_prover]
#[verifier::rlimit(30)]
proof fn lemma_and_a_a(cpu: Cpu, mem: MemoryView)
    requires
        mem.read(cpu.registers.pc as int) == Some(0xA7u8),
        step_spec(cpu, mem) is Some,
    ensures
        alu_step_is(cpu, mem, 0xA7, step_spec(cpu, mem).unwrap()),
{
    reveal(step_spec);
    let r = cpu.registers;
    let c0 = cpu.with_pc(add16(r.pc, 1));
    assert(step_spec(cpu, mem) == execute_40_bf(c0, mem, 0xA7));
    lemma_byte_arithmetic(r.pc, r.l, r.h, 1);
    let x = operand8(cpu, mem, 0xA7u8 % 8);
    if x is Some {
        lemma_alu_arithmetic(r.a, x.unwrap());
    }
}

#[verifier::spinoff_prover]
#[verifier::rlimit(30)]
proof fn lemma_xor_a_a(cpu: Cpu, mem: MemoryView)
    requires
        mem.read(cpu.registers.pc as int) == Some(0xAFu8),
        step_spec(cpu, mem) is Some,
    ensures
        alu_step_is(cpu, mem, 0xAF, step_spec(cpu, mem).unwrap()),
{
    reveal(step_spec);
    let r = cpu.registers;
    let c0 = cpu.with_pc(add16(r.pc, 1));
    assert(step_spec(cpu, mem) == execute_40_bf(c0, mem, 0xAF));
    lemma_byte_arithmetic(r.pc, r.l, r.h, 1);
    let x = operand8(cpu, mem, 0xAFu8 % 8);
    if x is Some {
        lemma_alu_arithmetic(r.a, x.unwrap());
    }
}

#[verifier::spinoff_prover]
#[verifier::rlimit(30)]
proof fn lemma_or_a_c(cpu: Cpu, mem: MemoryView)
    requires
        mem.read(cpu.registers.pc as int) == Some(0xB1u8),
        step_spec(cpu, mem) is Some,
    ensures
        alu_step_is(cpu, mem, 0xB1, step_spec(cpu, mem).unwrap()),
{
    reveal(step_spec);
    let r = cpu.registers;
    let c0 = cpu.with_pc(add16(r.pc, 1));
    assert(step_spec(cpu, mem) == execute_40_bf(c0, mem, 0xB1));
    lemma_byte_arithmetic(r.pc, r.l, r.h, 1);
    let x = operand8(cpu, mem, 0xB1u8 % 8);
    if x is Some {
        lemma_alu_arithmetic(r.a, x.unwrap());
    }
}

#[verifier::spinoff_prover]
#[verifier::rlimit(30)]
proof fn lemma_or_a_l(cpu: Cpu, mem: MemoryView)
    requires
        mem.read(cpu.registers.pc as int) == Some(0xB5u8),
        step_spec(cpu, mem) is Some,
    ensures
        alu_step_is(cpu, mem, 0xB5, step_spec(cpu, mem).unwrap()),
{
    reveal(step_spec);
    let r = cpu.registers;
    let c0 = cpu.with_pc(add16(r.pc, 1));
    assert(step_spec(cpu, mem) == execute_40_bf(c0, mem, 0xB5));
    lemma_byte_arithmetic(r.pc, r.l, r.h, 1);
    let x = operand8(cpu, mem, 0xB5u8 % 8);
    if x is Some {
        lemma_alu_arithmetic(r.a, x.unwrap());
    }
}

#[verifier::spinoff_prover]
#[verifier::rlimit(30)]
proof fn lemma_cp_a_hl(cpu: Cpu, mem: MemoryView)
    requires
        mem.read(cpu.registers.pc as int) == Some(0xBEu8),
        step_spec(cpu, mem) is Some,
    ensures
        alu_step_is(cpu, mem, 0xBE, step_spec(cpu, mem).unwrap()),
{
    reveal(step_spec);
    let r = cpu.registers;
    let c0 = cpu.with_pc(add16(r.pc, 1));
    assert(step_spec(cpu, mem) == execute_40_bf(c0, mem, 0xBE));
    lemma_byte_arithmetic(r.pc, r.l, r.h, 1);
    let x = operand8(cpu, mem, 0xBEu8 % 8);
    if x is Some {
        lemma_alu_arithmetic(r.a, x.unwrap());
    }
}

#[verifier::spinoff_prover]
#[verifier::rlimit(30)]
proof fn lemma_cp_a_a(cpu: Cpu, mem: MemoryView)
    requires
        mem.read(cpu.registers.pc as int) == Some(0xBFu8),
        step_spec(cpu, mem) is Some,
    ensures
        alu_step_is(cpu, mem, 0xBF, step_spec(cpu, mem).unwrap()),
{
    reveal(step_spec);
    let r = cpu.registers;
    let c0 = cpu.with_pc(add16(r.pc, 1));
    assert(step_spec(cpu, mem) == execute_40_bf(c0, mem, 0xBF));
    lemma_byte_arithmetic(r.pc, r.l, r.h, 1);
    let x = operand8(cpu, mem, 0xBFu8 % 8);
    if x is Some {
        lemma_alu_arithmetic(r.a, x.unwrap());
    }
}

/// Every implemented opcode 0x80-0xBF behaves as its bits say (see `alu_step_is`).
#[verifier::spinoff_prover]
#[verifier::rlimit(40)]
pub proof fn lemma_alu_instruction(cpu: Cpu, mem: MemoryView, op: u8)
    requires
        0x80 <= op <= 0xBF,
        mem.read(cpu.registers.pc as int) == Some(op),
        step_spec(cpu, mem) is Some,
    ensures
        alu_step_is(cpu, mem, op, step_spec(cpu, mem).unwrap()),
{
    if op == 0x83 {
        lemma_add_a_e(cpu, mem);
    } else if op == 0x86 {
        lemma_add_a_hl(cpu, mem);
    } else if op == 0x89 {
        lemma_adc_a_c(cpu, mem);
    } else if op == 0x90 {
        lemma_sub_a_b(cpu, mem);
    } else if op == 0x96 {
        lemma_sub_a_hl(cpu, mem);
    } else if op == 0x97 {
        lemma_sub_a_a(cpu, mem);
    } else if op == 0xa1 {
        lemma_and_a_c(cpu, mem);
    } else if op == 0xa7 {
        lemma_and_a_a(cpu, mem);
    } else if op == 0xaf {
        lemma_xor_a_a(cpu, mem);
    } else if op == 0xb1 {
        lemma_or_a_c(cpu, mem);
    } else if op == 0xb5 {
        lemma_or_a_l(cpu, mem);
    } else if op == 0xbe {
        lemma_cp_a_hl(cpu, mem);
    } else if op == 0xbf {
        lemma_cp_a_a(cpu, mem);
    } else {
        reveal(step_spec);
        let c0 = cpu.with_pc(add16(cpu.registers.pc, 1));
        assert(step_spec(cpu, mem) == execute_40_bf(c0, mem, op));
    }
}

/// `r` with the 8-bit register of index `i` (as in `reg8`) set to `v`.
pub open spec fn reg8_set(r: Registers, i: u8, v: u8) -> Registers {
    if i == 0 {
        Registers { b: v, ..r }
    } else if i == 1 {
        Registers { c: v, ..r }
    } else if i == 2 {
        Registers { d: v, ..r }
    } else if i == 3 {
        Registers { e: v, ..r }
    } else if i == 4 {
        Registers { h: v, ..r }
    } else if i == 5 {
        Registers { l: v, ..r }
    } else {
        Registers { a: v, ..r }
    }
}

/// PC moved on by `k` bytes, wrapping at 0x10000.
pub open spec fn pc_plus(cpu: Cpu, k: int) -> u16 {
    ((cpu.registers.pc + k) % 0x10000) as u16
}

/// The byte `k` bytes after the opcode.
pub open spec fn operand_byte(cpu: Cpu, mem: MemoryView, k: int) -> Option<u8> {
    mem.read((cpu.registers.pc + k) % 0x10000)
}

/// What an opcode 0x00-0x3F whose low three bits are 4, 5 or 6 does, as its bits say: INC,
/// DEC or LD n8 of the operand that bits 3-5 name (B, C, D, E, H, L, the byte at HL, A).
/// INC and DEC wrap at 256, set Z for a zero result, H for a carry out of (borrow into) bit
/// 3 and N for DEC, and keep C; LD n8 stores the byte after the opcode. PC moves past the
/// instruction; INC and DEC of a register take 4 T-cycles, LD n8 8 (12 to the byte at HL).
pub open spec fn inc_dec_load_step_is(cpu: Cpu, mem: MemoryView, op: u8, step: (Cpu, MemoryView, u8)) -> bool {
    let (c, m, t) = step;
    let i = (op / 8) % 8;
    let kind = op % 8;
    let r = cpu.registers;
    let f = cpu.flags;
    let v = reg8(r, i);
    if kind == 4 || kind == 5 {
        let res: u8 = if kind == 4 {
            ((v + 1) % 256) as u8
        } else {
            ((v + 255) % 256) as u8
        };
        &&& i != 6
        &&& m == mem
        &&& t == 4
        &&& c.registers == Registers { pc: pc_plus(cpu, 1), ..reg8_set(r, i, res) }
        &&& c.flags == (Flags {
            z: res == 0,
            n: kind == 5,
            h: if kind == 4 {
                v % 16 == 15
            } else {
                v % 16 == 0
            },
            c: f.c,
        })
        &&& c.ime == cpu.ime
    } else {
        &&& kind == 6
        &&& operand_byte(cpu, mem, 1) is Some
        &&& c.flags == f
        &&& c.ime == cpu.ime
        &&& if i == 6 {
            &&& mem.write(pair(r.h, r.l), operand_byte(cpu, mem, 1).unwrap()) == Some(m)
            &&& t == 12
            &&& c.registers == Registers { pc: pc_plus(cpu, 2), ..r }
        } else {
            &&& m == mem
            &&& t == 8
            &&& c.registers == Registers {
                pc: pc_plus(cpu, 2),
                ..reg8_set(r, i, operand_byte(cpu, mem, 1).unwrap())
            }
        }
    }
}

/// The register pair with index `p` in the opcode encoding: 0 BC, 1 DE, 2 HL, 3 SP.
pub open spec fn pair_value(r: Registers, p: u8) -> int {
    if p == 0 {
        pair(r.b, r.c)
    } else if p == 1 {
        pair(r.d, r.e)
    } else if p == 2 {
        pair(r.h, r.l)
    } else {
        r.sp as int
    }
}

/// `r` with the register pair of index `p` set to `v` (0 <= v < 0x10000), high byte first.
pub open spec fn pair_set(r: Registers, p: u8, v: int) -> Registers {
    let hi = (v / 256) as u8;
    let lo = (v % 256) as u8;
    if p == 0 {
        Registers { b: hi, c: lo, ..r }
    } else if p == 1 {
        Registers { d: hi, e: lo, ..r }
    } else if p == 2 {
        Registers { h: hi, l: lo, ..r }
    } else {
        Registers { sp: v as u16, ..r }
    }
}

/// What an opcode 0x00-0x3F with low nibble 1, 2, 3, 9, 0xA or 0xB does, as its bits say,
/// on the register pair that bits 4-5 name (BC, DE, HL, SP): LD rr, n16 (the two bytes after
/// the opcode, low byte first; 12 T-cycles), INC rr and DEC rr (wrapping at 0x10000; 8),
/// ADD HL, rr (wrapping; 8), LD (rr), A and LD A, (rr) for BC and DE, and for the two other
/// encodings the byte at HL with HL moved up (HL+) or down (HL-) afterwards (8). The flags
/// stay and PC moves past the instruction.
pub open spec fn word_step_is(cpu: Cpu, mem: MemoryView, op: u8, step: (Cpu, MemoryView, u8)) -> bool {
    let (c, m, t) = step;
    let p = (op / 16) % 4;
    let col = op % 16;
    let r = cpu.registers;
    let hl = pair(r.h, r.l);
    let address = if p <= 1 {
        pair_value(r, p)
    } else {
        hl
    };
    let hl_after = if p == 2 {
        (hl + 1) % 0x10000
    } else {
        (hl + 0x10000 - 1) % 0x10000
    };
    &&& c.flags == cpu.flags
    &&& c.ime == cpu.ime
    &&& if col == 1 {
        &&& operand_byte(cpu, mem, 1) is Some && operand_byte(cpu, mem, 2) is Some
        &&& m == mem
        &&& t == 12
        &&& c.registers == Registers {
            pc: pc_plus(cpu, 3),
            ..pair_set(
                r,
                p,
                pair(operand_byte(cpu, mem, 2).unwrap(), operand_byte(cpu, mem, 1).unwrap()),
            )
        }
    } else if col == 3 || col == 0xB || col == 9 {
        let v = if col == 3 {
            (pair_value(r, p) + 1) % 0x10000
        } else if col == 0xB {
            (pair_value(r, p) + 0x10000 - 1) % 0x10000
        } else {
            (hl + pair_value(r, p)) % 0x10000
        };
        &&& m == mem
        &&& t == 8
        &&& c.registers == Registers {
            pc: pc_plus(cpu, 1),
            ..pair_set(
                r,
                if col == 9 {
                    2u8
                } else {
                    p
                },
                v,
            )
        }
    } else if col == 2 {
        &&& mem.write(address, r.a) == Some(m)
        &&& t == 8
        &&& c.registers == if p <= 1 {
            Registers { pc: pc_plus(cpu, 1), ..r }
        } else {
            Registers { pc: pc_plus(cpu, 1), ..pair_set(r, 2, hl_after) }
        }
    } else {
        &&& col == 0xA
        &&& mem.read(address) is Some
        &&& m == mem
        &&& t == 8
        &&& c.registers == if p <= 1 {
            Registers { a: mem.read(address).unwrap(), pc: pc_plus(cpu, 1), ..r }
        } else {
            Registers { a: mem.read(address).unwrap(), pc: pc_plus(cpu, 1), ..pair_set(r, 2, hl_after) }
        }
    }
}

/// Splitting a pair value into bytes and wrapping a program counter.
proof fn lemma_pair_bytes(v: int, pc: u16)
    requires
        0 <= v < 0x10000,
    ensures
        pair((v / 256) as u8, (v % 256) as u8) == v,
        ((pc + 1) % 0x10000 + 1) % 0x10000 == (pc + 2) % 0x10000,
        ((pc + 2) % 0x10000 + 1) % 0x10000 == (pc + 3) % 0x10000,
{
}

/// The byte arithmetic of the register pairs and the program counter of `cpu`.
proof fn lemma_step_arithmetic(cpu: Cpu)
    ensures
        forall|x: u16, lo: u8, hi: u8, d: int| #![trigger add16(x, d), join(lo, hi)]
            join(lo, hi) == pair(hi, lo) && add16(x, d) == (x + d) % 0x10000,
        forall|x: u16| #![trigger low_byte(x)] #![trigger high_byte(x)]
            low_byte(x) == x % 256 && high_byte(x) == x / 256,
        forall|a: u8| #![trigger (a & 0x0Fu8)] a & 0x0Fu8 == a % 16,
        ((cpu.registers.pc + 1) % 0x10000 + 1) % 0x10000 == (cpu.registers.pc + 2) % 0x10000,
        ((cpu.registers.pc + 2) % 0x10000 + 1) % 0x10000 == (cpu.registers.pc + 3) % 0x10000,
        forall|x: int| #![trigger (x - 1) % 256] (x - 1) % 256 == (x + 255) % 256,
        forall|x: int| #![trigger (x - 1) % 0x10000] (x - 1) % 0x10000 == (x + 0x10000 - 1) % 0x10000,
        forall|x: u16| #![trigger add16(x, -1)] add16(x, -1) == (x + 0x10000 - 1) % 0x10000,
{
    reveal(add16);
    assert forall|x: u16| #![trigger add16(x, -1)] add16(x, -1) == (x + 0x10000 - 1) % 0x10000 by {
        vstd::arithmetic::div_mod::lemma_mod_add_multiples_vanish(x - 1, 0x10000);
    }
    assert forall|x: int| #![trigger (x - 1) % 256] (x - 1) % 256 == (x + 255) % 256 by {
        vstd::arithmetic::div_mod::lemma_mod_add_multiples_vanish(x - 1, 256);
    }
    assert forall|x: int| #![trigger (x - 1) % 0x10000] (x - 1) % 0x10000 == (x + 0x10000 - 1)
        % 0x10000 by {
        vstd::arithmetic::div_mod::lemma_mod_add_multiples_vanish(x - 1, 0x10000);
    }
    reveal(join);
    reveal(add16);
    reveal(low_byte);
    reveal(high_byte);
    assert forall|a: u8| #![trigger (a & 0x0Fu8)] a & 0x0Fu8 == a % 16 by {
        assert(a & 0x0Fu8 == a % 16) by (bit_vector);
    }
}

#[verifier::spinoff_prover]
#[verifier::rlimit(30)]
proof fn lemma_inc_b(cpu: Cpu, mem: MemoryView)
    requires
        mem.read(cpu.registers.pc as int) == Some(0x04u8),
        step_spec(cpu, mem) is Some,
    ensures
        inc_dec_load_step_is(cpu, mem, 0x04, step_spec(cpu, mem).unwrap()),
{
    reveal(step_spec);
    let r = cpu.registers;
    let c0 = cpu.with_pc(add16(r.pc, 1));
    assert(step_spec(cpu, mem) == execute_00_1f(c0, mem, 0x04));
    lemma_step_arithmetic(cpu);
}

#[verifier::spinoff_prover]
#[verifier::rlimit(30)]
proof fn lemma_dec_b(cpu: Cpu, mem: MemoryView)
    requires
        mem.read(cpu.registers.pc as int) == Some(0x05u8),
        step_spec(cpu, mem) is Some,
    ensures
        inc_dec_load_step_is(cpu, mem, 0x05, step_spec(cpu, mem).unwrap()),
{
    reveal(step_spec);
    let r = cpu.registers;
    let c0 = cpu.with_pc(add16(r.pc, 1));
    assert(step_spec(cpu, mem) == execute_00_1f(c0, mem, 0x05));
    lemma_step_arithmetic(cpu);
}

#[verifier::spinoff_prover]
#[verifier::rlimit(30)]
proof fn lemma_ld_b_n(cpu: Cpu, mem: MemoryView)
    requires
        mem.read(cpu.registers.pc as int) == Some(0x06u8),
        step_spec(cpu, mem) is Some,
    ensures
        inc_dec_load_step_is(cpu, mem, 0x06, step_spec(cpu, mem).unwrap()),
{
    reveal(step_spec);
    let r = cpu.registers;
    let c0 = cpu.with_pc(add16(r.pc, 1));
    assert(step_spec(cpu, mem) == execute_00_1f(c0, mem, 0x06));
    lemma_step_arithmetic(cpu);
}

#[verifier::spinoff_prover]
#[verifier::rlimit(30)]
proof fn lemma_inc_c(cpu: Cpu, mem: MemoryView)
    requires
        mem.read(cpu.registers.pc as int) == Some(0x0cu8),
        step_spec(cpu, mem) is Some,
    ensures
        inc_dec_load_step_is(cpu, mem, 0x0c, step_spec(cpu, mem).unwrap()),
{
    reveal(step_spec);
    let r = cpu.registers;
    let c0 = cpu.with_pc(add16(r.pc, 1));
    assert(step_spec(cpu, mem) == execute_00_1f(c0, mem, 0x0c));
    lemma_step_arithmetic(cpu);
}

#[verifier::spinoff_prover]
#[verifier::rlimit(30)]
proof fn lemma_dec_c(cpu: Cpu, mem: MemoryView)
    requires
        mem.read(cpu.registers.pc as int) == Some(0x0du8),
        step_spec(cpu, mem) is Some,
    ensures
        inc_dec_load_step_is(cpu, mem, 0x0d, step_spec(cpu, mem).unwrap()),
{
    reveal(step_spec);
    let r = cpu.registers;
    let c0 = cpu.with_pc(add16(r.pc, 1));
    assert(step_spec(cpu, mem) == execute_00_1f(c0, mem, 0x0d));
    lemma_step_arithmetic(cpu);
}

#[verifier::spinoff_prover]
#[verifier::rlimit(30)]
proof fn lemma_ld_c_n(cpu: Cpu, mem: MemoryView)
    requires
        mem.read(cpu.registers.pc as int) == Some(0x0eu8),
        step_spec(cpu, mem) is Some,
    ensures
        inc_dec_load_step_is(cpu, mem, 0x0e, step_spec(cpu, mem).unwrap()),
{
    reveal(step_spec);
    let r = cpu.registers;
    let c0 = cpu.with_pc(add16(r.pc, 1));
    assert(step_spec(cpu, mem) == execute_00_1f(c0, mem, 0x0e));
    lemma_step_arithmetic(cpu);
}

#[verifier::spinoff_prover]
#[verifier::rlimit(30)]
proof fn lemma_dec_d(cpu: Cpu, mem: MemoryView)
    requires
        mem.read(cpu.registers.pc as int) == Some(0x15u8),
        step_spec(cpu, mem) is Some,
    ensures
        inc_dec_load_step_is(cpu, mem, 0x15, step_spec(cpu, mem).unwrap()),
{
    reveal(step_spec);
    let r = cpu.registers;
    let c0 = cpu.with_pc(add16(r.pc, 1));
    assert(step_spec(cpu, mem) == execute_00_1f(c0, mem, 0x15));
    lemma_step_arithmetic(cpu);
}

#[verifier::spinoff_prover]
#[verifier::rlimit(30)]
proof fn lemma_ld_d_n(cpu: Cpu, mem: MemoryView)
    requires
        mem.read(cpu.registers.pc as int) == Some(0x16u8),
        step_spec(cpu, mem) is Some,
    ensures
        inc_dec_load_step_is(cpu, mem, 0x16, step_spec(cpu, mem).unwrap()),
{
    reveal(step_spec);
    let r = cpu.registers;
    let c0 = cpu.with_pc(add16(r.pc, 1));
    assert(step_spec(cpu, mem) == execute_00_1f(c0, mem, 0x16));
    lemma_step_arithmetic(cpu);
}

#[verifier::spinoff_prover]
#[verifier::rlimit(30)]
proof fn lemma_inc_e(cpu: Cpu, mem: MemoryView)
    requires
        mem.read(cpu.registers.pc as int) == Some(0x1cu8),
        step_spec(cpu, mem) is Some,
    ensures
        inc_dec_load_step_is(cpu, mem, 0x1c, step_spec(cpu, mem).unwrap()),
{
    reveal(step_spec);
    let r = cpu.registers;
    let c0 = cpu.with_pc(add16(r.pc, 1));
    assert(step_spec(cpu, mem) == execute_00_1f(c0, mem, 0x1c));
    lemma_step_arithmetic(cpu);
}

#[verifier::spinoff_prover]
#[verifier::rlimit(30)]
proof fn lemma_dec_e(cpu: Cpu, mem: MemoryView)
    requires
        mem.read(cpu.registers.pc as int) == Some(0x1du8),
        step_spec(cpu, mem) is Some,
    ensures
        inc_dec_load_step_is(cpu, mem, 0x1d, step_spec(cpu, mem).unwrap()),
{
    reveal(step_spec);
    let r = cpu.registers;
    let c0 = cpu.with_pc(add16(r.pc, 1));
    assert(step_spec(cpu, mem) == execute_00_1f(c0, mem, 0x1d));
    lemma_step_arithmetic(cpu);
}

#[verifier::spinoff_prover]
#[verifier::rlimit(30)]
proof fn lemma_ld_e_n(cpu: Cpu, mem: MemoryView)
    requires
        mem.read(cpu.registers.pc as int) == Some(0x1eu8),
        step_spec(cpu, mem) is Some,
    ensures
        inc_dec_load_step_is(cpu, mem, 0x1e, step_spec(cpu, mem).unwrap()),
{
    reveal(step_spec);
    let r = cpu.registers;
    let c0 = cpu.with_pc(add16(r.pc, 1));
    assert(step_spec(cpu, mem) == execute_00_1f(c0, mem, 0x1e));
    lemma_step_arithmetic(cpu);
}

#[verifier::spinoff_prover]
#[verifier::rlimit(30)]
proof fn lemma_inc_h(cpu: Cpu, mem: MemoryView)
    requires
        mem.read(cpu.registers.pc as int) == Some(0x24u8),
        step_spec(cpu, mem) is Some,
    ensures
        inc_dec_load_step_is(cpu, mem, 0x24, step_spec(cpu, mem).unwrap()),
{
    reveal(step_spec);
    let r = cpu.registers;
    let c0 = cpu.with_pc(add16(r.pc, 1));
    assert(step_spec(cpu, mem) == execute_20_3f(c0, mem, 0x24));
    lemma_step_arithmetic(cpu);
}

#[verifier::spinoff_prover]
#[verifier::rlimit(30)]
proof fn lemma_inc_l(cpu: Cpu, mem: MemoryView)
    requires
        mem.read(cpu.registers.pc as int) == Some(0x2cu8),
        step_spec(cpu, mem) is Some,
    ensures
        inc_dec_load_step_is(cpu, mem, 0x2c, step_spec(cpu, mem).unwrap()),
{
    reveal(step_spec);
    let r = cpu.registers;
    let c0 = cpu.with_pc(add16(r.pc, 1));
    assert(step_spec(cpu, mem) == execute_20_3f(c0, mem, 0x2c));
    lemma_step_arithmetic(cpu);
}

#[verifier::spinoff_prover]
#[verifier::rlimit(30)]
proof fn lemma_ld_l_n(cpu: Cpu, mem: MemoryView)
    requires
        mem.read(cpu.registers.pc as int) == Some(0x2eu8),
        step_spec(cpu, mem) is Some,
    ensures
        inc_dec_load_step_is(cpu, mem, 0x2e, step_spec(cpu, mem).unwrap()),
{
    reveal(step_spec);
    let r = cpu.registers;
    let c0 = cpu.with_pc(add16(r.pc, 1));
    assert(step_spec(cpu, mem) == execute_20_3f(c0, mem, 0x2e));
    lemma_step_arithmetic(cpu);
}

#[verifier::spinoff_prover]
#[verifier::rlimit(30)]
proof fn lemma_ld_hl_n(cpu: Cpu, mem: MemoryView)
    requires
        mem.read(cpu.registers.pc as int) == Some(0x36u8),
        step_spec(cpu, mem) is Some,
    ensures
        inc_dec_load_step_is(cpu, mem, 0x36, step_spec(cpu, mem).unwrap()),
{
    reveal(step_spec);
    let r = cpu.registers;
    let c0 = cpu.with_pc(add16(r.pc, 1));
    assert(step_spec(cpu, mem) == execute_20_3f(c0, mem, 0x36));
    lemma_step_arithmetic(cpu);
}

#[verifier::spinoff_prover]
#[verifier::rlimit(30)]
proof fn lemma_dec_a(cpu: Cpu, mem: MemoryView)
    requires
        mem.read(cpu.registers.pc as int) == Some(0x3du8),
        step_spec(cpu, mem) is Some,
    ensures
        inc_dec_load_step_is(cpu, mem, 0x3d, step_spec(cpu, mem).unwrap()),
{
    reveal(step_spec);
    let r = cpu.registers;
    let c0 = cpu.with_pc(add16(r.pc, 1));
    assert(step_spec(cpu, mem) == execute_20_3f(c0, mem, 0x3d));
    lemma_step_arithmetic(cpu);
}

#[verifier::spinoff_prover]
#[verifier::rlimit(30)]
proof fn lemma_ld_a_n(cpu: Cpu, mem: MemoryView)
    requires
        mem.read(cpu.registers.pc as int) == Some(0x3eu8),
        step_spec(cpu, mem) is Some,
    ensures
        inc_dec_load_step_is(cpu, mem, 0x3e, step_spec(cpu, mem).unwrap()),
{
    reveal(step_spec);
    let r = cpu.registers;
    let c0 = cpu.with_pc(add16(r.pc, 1));
    assert(step_spec(cpu, mem) == execute_20_3f(c0, mem, 0x3e));
    lemma_step_arithmetic(cpu);
}

#[verifier::spinoff_prover]
#[verifier::rlimit(30)]
proof fn lemma_ld_bc_nn(cpu: Cpu, mem: MemoryView)
    requires
        mem.read(cpu.registers.pc as int) == Some(0x01u8),
        step_spec(cpu, mem) is Some,
    ensures
        word_step_is(cpu, mem, 0x01, step_spec(cpu, mem).unwrap()),
{
    reveal(step_spec);
    let r = cpu.registers;
    let c0 = cpu.with_pc(add16(r.pc, 1));
    assert(step_spec(cpu, mem) == execute_00_1f(c0, mem, 0x01));
    lemma_step_arithmetic(cpu);
}

#[verifier::spinoff_prover]
#[verifier::rlimit(30)]
proof fn lemma_ld_bc_a(cpu: Cpu, mem: MemoryView)
    requires
        mem.read(cpu.registers.pc as int) == Some(0x02u8),
        step_spec(cpu, mem) is Some,
    ensures
        word_step_is(cpu, mem, 0x02, step_spec(cpu, mem).unwrap()),
{
    reveal(step_spec);
    let r = cpu.registers;
    let c0 = cpu.with_pc(add16(r.pc, 1));
    assert(step_spec(cpu, mem) == execute_00_1f(c0, mem, 0x02));
    lemma_step_arithmetic(cpu);
}

#[verifier::spinoff_prover]
#[verifier::rlimit(30)]
proof fn lemma_inc_bc(cpu: Cpu, mem: MemoryView)
    requires
        mem.read(cpu.registers.pc as int) == Some(0x03u8),
        step_spec(cpu, mem) is Some,
    ensures
        word_step_is(cpu, mem, 0x03, step_spec(cpu, mem).unwrap()),
{
    reveal(step_spec);
    let r = cpu.registers;
    let c0 = cpu.with_pc(add16(r.pc, 1));
    assert(step_spec(cpu, mem) == execute_00_1f(c0, mem, 0x03));
    lemma_step_arithmetic(cpu);
}

#[verifier::spinoff_prover]
#[verifier::rlimit(30)]
proof fn lemma_add_hl_bc(cpu: Cpu, mem: MemoryView)
    requires
        mem.read(cpu.registers.pc as int) == Some(0x09u8),
        step_spec(cpu, mem) is Some,
    ensures
        word_step_is(cpu, mem, 0x09, step_spec(cpu, mem).unwrap()),
{
    reveal(step_spec);
    let r = cpu.registers;
    let c0 = cpu.with_pc(add16(r.pc, 1));
    assert(step_spec(cpu, mem) == execute_00_1f(c0, mem, 0x09));
    lemma_step_arithmetic(cpu);
}

#[verifier::spinoff_prover]
#[verifier::rlimit(30)]
proof fn lemma_dec_bc(cpu: Cpu, mem: MemoryView)
    requires
        mem.read(cpu.registers.pc as int) == Some(0x0bu8),
        step_spec(cpu, mem) is Some,
    ensures
        word_step_is(cpu, mem, 0x0b, step_spec(cpu, mem).unwrap()),
{
    reveal(step_spec);
    let r = cpu.registers;
    let c0 = cpu.with_pc(add16(r.pc, 1));
    assert(step_spec(cpu, mem) == execute_00_1f(c0, mem, 0x0b));
    lemma_step_arithmetic(cpu);
}

#[verifier::spinoff_prover]
#[verifier::rlimit(30)]
proof fn lemma_ld_de_nn(cpu: Cpu, mem: MemoryView)
    requires
        mem.read(cpu.registers.pc as int) == Some(0x11u8),
        step_spec(cpu, mem) is Some,
    ensures
        word_step_is(cpu, mem, 0x11, step_spec(cpu, mem).unwrap()),
{
    reveal(step_spec);
    let r = cpu.registers;
    let c0 = cpu.with_pc(add16(r.pc, 1));
    assert(step_spec(cpu, mem) == execute_00_1f(c0, mem, 0x11));
    lemma_step_arithmetic(cpu);
}

#[verifier::spinoff_prover]
#[verifier::rlimit(30)]
proof fn lemma_inc_de(cpu: Cpu, mem: MemoryView)
    requires
        mem.read(cpu.registers.pc as int) == Some(0x13u8),
        step_spec(cpu, mem) is Some,
    ensures
        word_step_is(cpu, mem, 0x13, step_spec(cpu, mem).unwrap()),
{
    reveal(step_spec);
    let r = cpu.registers;
    let c0 = cpu.with_pc(add16(r.pc, 1));
    assert(step_spec(cpu, mem) == execute_00_1f(c0, mem, 0x13));
    lemma_step_arithmetic(cpu);
}

#[verifier::spinoff_prover]
#[verifier::rlimit(30)]
proof fn lemma_ld_a_de(cpu: Cpu, mem: MemoryView)
    requires
        mem.read(cpu.registers.pc as int) == Some(0x1au8),
        step_spec(cpu, mem) is Some,
    ensures
        word_step_is(cpu, mem, 0x1a, step_spec(cpu, mem).unwrap()),
{
    reveal(step_spec);
    let r = cpu.registers;
    let c0 = cpu.with_pc(add16(r.pc, 1));
    assert(step_spec(cpu, mem) == execute_00_1f(c0, mem, 0x1a));
    lemma_step_arithmetic(cpu);
}

#[verifier::spinoff_prover]
#[verifier::rlimit(30)]
proof fn lemma_ld_hl_nn(cpu: Cpu, mem: MemoryView)
    requires
        mem.read(cpu.registers.pc as int) == Some(0x21u8),
        step_spec(cpu, mem) is Some,
    ensures
        word_step_is(cpu, mem, 0x21, step_spec(cpu, mem).unwrap()),
{
    reveal(step_spec);
    let r = cpu.registers;
    let c0 = cpu.with_pc(add16(r.pc, 1));
    assert(step_spec(cpu, mem) == execute_20_3f(c0, mem, 0x21));
    lemma_step_arithmetic(cpu);
}

#[verifier::spinoff_prover]
#[verifier::rlimit(30)]
proof fn lemma_ld_hli_a(cpu: Cpu, mem: MemoryView)
    requires
        mem.read(cpu.registers.pc as int) == Some(0x22u8),
        step_spec(cpu, mem) is Some,
    ensures
        word_step_is(cpu, mem, 0x22, step_spec(cpu, mem).unwrap()),
{
    reveal(step_spec);
    let r = cpu.registers;
    let c0 = cpu.with_pc(add16(r.pc, 1));
    assert(step_spec(cpu, mem) == execute_20_3f(c0, mem, 0x22));
    lemma_step_arithmetic(cpu);
}

#[verifier::spinoff_prover]
#[verifier::rlimit(30)]
proof fn lemma_inc_hl(cpu: Cpu, mem: MemoryView)
    requires
        mem.read(cpu.registers.pc as int) == Some(0x23u8),
        step_spec(cpu, mem) is Some,
    ensures
        word_step_is(cpu, mem, 0x23, step_spec(cpu, mem).unwrap()),
{
    reveal(step_spec);
    let r = cpu.registers;
    let c0 = cpu.with_pc(add16(r.pc, 1));
    assert(step_spec(cpu, mem) == execute_20_3f(c0, mem, 0x23));
    lemma_step_arithmetic(cpu);
}

#[verifier::spinoff_prover]
#[verifier::rlimit(30)]
proof fn lemma_ld_a_hli(cpu: Cpu, mem: MemoryView)
    requires
        mem.read(cpu.registers.pc as int) == Some(0x2au8),
        step_spec(cpu, mem) is Some,
    ensures
        word_step_is(cpu, mem, 0x2a, step_spec(cpu, mem).unwrap()),
{
    reveal(step_spec);
    let r = cpu.registers;
    let c0 = cpu.with_pc(add16(r.pc, 1));
    assert(step_spec(cpu, mem) == execute_20_3f(c0, mem, 0x2a));
    lemma_step_arithmetic(cpu);
}

#[verifier::spinoff_prover]
#[verifier::rlimit(30)]
proof fn lemma_dec_hl(cpu: Cpu, mem: MemoryView)
    requires
        mem.read(cpu.registers.pc as int) == Some(0x2bu8),
        step_spec(cpu, mem) is Some,
    ensures
        word_step_is(cpu, mem, 0x2b, step_spec(cpu, mem).unwrap()),
{
    reveal(step_spec);
    let r = cpu.registers;
    let c0 = cpu.with_pc(add16(r.pc, 1));
    assert(step_spec(cpu, mem) == execute_20_3f(c0, mem, 0x2b));
    lemma_step_arithmetic(cpu);
}

#[verifier::spinoff_prover]
#[verifier::rlimit(30)]
proof fn lemma_ld_sp_nn(cpu: Cpu, mem: MemoryView)
    requires
        mem.read(cpu.registers.pc as int) == Some(0x31u8),
        step_spec(cpu, mem) is Some,
    ensures
        word_step_is(cpu, mem, 0x31, step_spec(cpu, mem).unwrap()),
{
    reveal(step_spec);
    let r = cpu.registers;
    let c0 = cpu.with_pc(add16(r.pc, 1));
    assert(step_spec(cpu, mem) == execute_20_3f(c0, mem, 0x31));
    lemma_step_arithmetic(cpu);
}

#[verifier::spinoff_prover]
#[verifier::rlimit(30)]
proof fn lemma_ld_hld_a(cpu: Cpu, mem: MemoryView)
    requires
        mem.read(cpu.registers.pc as int) == Some(0x32u8),
        step_spec(cpu, mem) is Some,
    ensures
        word_step_is(cpu, mem, 0x32, step_spec(cpu, mem).unwrap()),
{
    reveal(step_spec);
    let r = cpu.registers;
    let c0 = cpu.with_pc(add16(r.pc, 1));
    assert(step_spec(cpu, mem) == execute_20_3f(c0, mem, 0x32));
    lemma_step_arithmetic(cpu);
}

/// Every implemented opcode 0x00-0x3F with low three bits 4, 5 or 6 behaves as its bits say
/// (see `inc_dec_load_step_is`).
#[verifier::spinoff_prover]
#[verifier::rlimit(40)]
pub proof fn lemma_inc_dec_load_instruction(cpu: Cpu, mem: MemoryView, op: u8)
    requires
        op < 0x40 && 4 <= op % 8 <= 6,
        mem.read(cpu.registers.pc as int) == Some(op),
        step_spec(cpu, mem) is Some,
    ensures
        inc_dec_load_step_is(cpu, mem, op, step_spec(cpu, mem).unwrap()),
{
    if op == 0x04 {
        lemma_inc_b(cpu, mem);
    } else if op == 0x05 {
        lemma_dec_b(cpu, mem);
    } else if op == 0x06 {
        lemma_ld_b_n(cpu, mem);
    } else if op == 0x0c {
        lemma_inc_c(cpu, mem);
    } else if op == 0x0d {
        lemma_dec_c(cpu, mem);
    } else if op == 0x0e {
        lemma_ld_c_n(cpu, mem);
    } else if op == 0x15 {
        lemma_dec_d(cpu, mem);
    } else if op == 0x16 {
        lemma_ld_d_n(cpu, mem);
    } else if op == 0x1c {
        lemma_inc_e(cpu, mem);
    } else if op == 0x1d {
        lemma_dec_e(cpu, mem);
    } else if op == 0x1e {
        lemma_ld_e_n(cpu, mem);
    } else if op == 0x24 {
        lemma_inc_h(cpu, mem);
    } else if op == 0x2c {
        lemma_inc_l(cpu, mem);
    } else if op == 0x2e {
        lemma_ld_l_n(cpu, mem);
    } else if op == 0x36 {
        lemma_ld_hl_n(cpu, mem);
    } else if op == 0x3d {
        lemma_dec_a(cpu, mem);
    } else if op == 0x3e {
        lemma_ld_a_n(cpu, mem);
    } else {
        reveal(step_spec);
        let c0 = cpu.with_pc(add16(cpu.registers.pc, 1));
        if op < 0x20 {
            assert(step_spec(cpu, mem) == execute_00_1f(c0, mem, op));
        } else {
            assert(step_spec(cpu, mem) == execute_20_3f(c0, mem, op));
        }
    }
}

/// Every implemented opcode 0x00-0x3F with low nibble 1, 2, 3, 9, 0xA or 0xB behaves as its
/// bits say (see `word_step_is`).
#[verifier::spinoff_prover]
#[verifier::rlimit(40)]
pub proof fn lemma_word_instruction(cpu: Cpu, mem: MemoryView, op: u8)
    requires
        op < 0x40 && (op % 16 == 1 || op % 16 == 2 || op % 16 == 3 || op % 16 == 9 || op % 16 == 0xA
            || op % 16 == 0xB),
        mem.read(cpu.registers.pc as int) == Some(op),
        step_spec(cpu, mem) is Some,
    ensures
        word_step_is(cpu, mem, op, step_spec(cpu, mem).unwrap()),
{
    if op == 0x01 {
        lemma_ld_bc_nn(cpu, mem);
    } else if op == 0x02 {
        lemma_ld_bc_a(cpu, mem);
    } else if op == 0x03 {
        lemma_inc_bc(cpu, mem);
    } else if op == 0x09 {
        lemma_add_hl_bc(cpu, mem);
    } else if op == 0x0b {
        lemma_dec_bc(cpu, mem);
    } else if op == 0x11 {
        lemma_ld_de_nn(cpu, mem);
    } else if op == 0x13 {
        lemma_inc_de(cpu, mem);
    } else if op == 0x1a {
        lemma_ld_a_de(cpu, mem);
    } else if op == 0x21 {
        lemma_ld_hl_nn(cpu, mem);
    } else if op == 0x22 {
        lemma_ld_hli_a(cpu, mem);
    } else if op == 0x23 {
        lemma_inc_hl(cpu, mem);
    } else if op == 0x2a {
        lemma_ld_a_hli(cpu, mem);
    } else if op == 0x2b {
        lemma_dec_hl(cpu, mem);
    } else if op == 0x31 {
        lemma_ld_sp_nn(cpu, mem);
    } else if op == 0x32 {
        lemma_ld_hld_a(cpu, mem);
    } else {
        reveal(step_spec);
        let c0 = cpu.with_pc(add16(cpu.registers.pc, 1));
        if op < 0x20 {
            assert(step_spec(cpu, mem) == execute_00_1f(c0, mem, op));
        } else {
            assert(step_spec(cpu, mem) == execute_20_3f(c0, mem, op));
        }
    }
}

/// The F register of `cpu`: Z in bit 7, N in bit 6, H in bit 5, C in bit 4.
pub open spec fn f_register(cpu: Cpu) -> int {
    (if cpu.flags.z {
        0x80int
    } else {
        0
    }) + (if cpu.flags.n {
        0x40int
    } else {
        0
    }) + (if cpu.flags.h {
        0x20int
    } else {
        0
    }) + (if cpu.flags.c {
        0x10int
    } else {
        0
    })
}

/// The memory after pushing the 16-bit `v` below SP: the high byte at SP - 1, the low byte
/// at SP - 2 (wrapping at 0x10000).
pub open spec fn pushed(cpu: Cpu, mem: MemoryView, v: int) -> Option<MemoryView> {
    let sp = cpu.registers.sp as int;
    match mem.write((sp + 0x10000 - 1) % 0x10000, (v / 256) as u8) {
        Some(m1) => m1.write((sp + 0x10000 - 2) % 0x10000, (v % 256) as u8),
        None => None,
    }
}

/// The 16-bit value on top of the stack: the low byte at SP, the high byte at SP + 1.
pub open spec fn stack_top(cpu: Cpu, mem: MemoryView) -> Option<int> {
    let sp = cpu.registers.sp as int;
    match (mem.read(sp), mem.read((sp + 1) % 0x10000)) {
        (Some(lo), Some(hi)) => Some(pair(hi, lo)),
        _ => None,
    }
}

/// The 16-bit operand after the opcode, low byte first.
pub open spec fn operand_word(cpu: Cpu, mem: MemoryView) -> Option<int> {
    match (operand_byte(cpu, mem, 1), operand_byte(cpu, mem, 2)) {
        (Some(lo), Some(hi)) => Some(pair(hi, lo)),
        _ => None,
    }
}

/// What the jumps, calls, returns and stack instructions do:
/// - JR e (0x18), JR NZ, e (0x20), JR Z, e (0x28): when taken (always, Z clear, Z set) PC
///   becomes the address after the instruction plus e read as a signed byte (12 T-cycles),
///   otherwise the address after it (8);
/// - JP nn (0xC3): PC becomes nn (16);
/// - CALL nn (0xCD), CALL Z, nn (0xCC): when taken (always, Z set) the address after the
///   instruction is pushed and PC becomes nn (24), otherwise PC moves past it (12);
/// - RET (0xC9), RET NZ (0xC0): when taken (always, Z clear) PC is popped from the stack (16,
///   20 for RET NZ), otherwise PC moves past the opcode (8);
/// - PUSH BC, DE, HL, AF (0xC5, 0xD5, 0xE5, 0xF5) push the pair (16), POP BC (0xC1) pops
///   into BC (12).
/// The flags and IME stay; only PC, SP, the popped pair and the pushed memory change.
pub open spec fn control_step_is(cpu: Cpu, mem: MemoryView, op: u8, step: (Cpu, MemoryView, u8)) -> bool {
    let (c, m, t) = step;
    let r = cpu.registers;
    let f = cpu.flags;
    let sp = r.sp as int;
    &&& c.flags == f
    &&& c.ime == cpu.ime
    &&& if op == 0x18 || op == 0x20 || op == 0x28 {
        let taken = op == 0x18 || (op == 0x20 && !f.z) || (op == 0x28 && f.z);
        &&& operand_byte(cpu, mem, 1) is Some
        &&& m == mem
        &&& if taken {
            let e = operand_byte(cpu, mem, 1).unwrap();
            let offset: int = if e < 128 {
                e as int
            } else {
                e - 256
            };
            t == 12 && c.registers == Registers {
                pc: ((r.pc + 2 + offset + 0x10000) % 0x10000) as u16,
                ..r
            }
        } else {
            t == 8 && c.registers == Registers { pc: pc_plus(cpu, 2), ..r }
        }
    } else if op == 0xC3 {
        &&& operand_word(cpu, mem) is Some
        &&& m == mem
        &&& t == 16
        &&& c.registers == Registers { pc: operand_word(cpu, mem).unwrap() as u16, ..r }
    } else if op == 0xCD || op == 0xCC {
        &&& operand_word(cpu, mem) is Some
        &&& if op == 0xCD || f.z {
            &&& pushed(cpu, mem, (r.pc + 3) % 0x10000) == Some(m)
            &&& t == 24
            &&& c.registers == Registers {
                pc: operand_word(cpu, mem).unwrap() as u16,
                sp: ((sp + 0x10000 - 2) % 0x10000) as u16,
                ..r
            }
        } else {
            m == mem && t == 12 && c.registers == Registers { pc: pc_plus(cpu, 3), ..r }
        }
    } else if op == 0xC9 || op == 0xC0 {
        &&& m == mem
        &&& if op == 0xC9 || !f.z {
            &&& stack_top(cpu, mem) is Some
            &&& t == (if op == 0xC9 {
                16u8
            } else {
                20u8
            })
            &&& c.registers == Registers {
                pc: stack_top(cpu, mem).unwrap() as u16,
                sp: ((sp + 2) % 0x10000) as u16,
                ..r
            }
        } else {
            t == 8 && c.registers == Registers { pc: pc_plus(cpu, 1), ..r }
        }
    } else if op == 0xC1 {
        &&& stack_top(cpu, mem) is Some
        &&& m == mem
        &&& t == 12
        &&& c.registers == Registers {
            pc: pc_plus(cpu, 1),
            sp: ((sp + 2) % 0x10000) as u16,
            ..pair_set(r, 0, stack_top(cpu, mem).unwrap())
        }
    } else {
        let v = if op == 0xC5 {
            pair(r.b, r.c)
        } else if op == 0xD5 {
            pair(r.d, r.e)
        } else if op == 0xE5 {
            pair(r.h, r.l)
        } else {
            r.a * 256 + f_register(cpu)
        };
        &&& op == 0xC5 || op == 0xD5 || op == 0xE5 || op == 0xF5
        &&& pushed(cpu, mem, v) == Some(m)
        &&& t == 16
        &&& c.registers == Registers {
            pc: pc_plus(cpu, 1),
            sp: ((sp + 0x10000 - 2) % 0x10000) as u16,
            ..r
        }
    }
}

/// A relative jump by the signed byte `e` from the address two bytes after `pc`.
proof fn lemma_jump_arithmetic(pc: u16, e: u8)
    ensures
        ({
            let offset: int = if e < 128 {
                e as int
            } else {
                e - 256
            };
            add16(((pc + 2) % 0x10000) as u16, offset) == (pc + 2 + offset + 0x10000) % 0x10000
        }),
{
    reveal(add16);
    let offset: int = if e < 128 {
        e as int
    } else {
        e - 256
    };
    let m: int = 0x10000;
    vstd::arithmetic::div_mod::lemma_add_mod_noop(pc + 2, offset, m);
    vstd::arithmetic::div_mod::lemma_add_mod_noop((pc + 2) % m, offset, m);
    vstd::arithmetic::div_mod::lemma_mod_twice(pc + 2, m);
    vstd::arithmetic::div_mod::lemma_mod_add_multiples_vanish(pc + 2 + offset, m);
}

/// The byte and word arithmetic of the stack.
proof fn lemma_stack_arithmetic(cpu: Cpu)
    ensures
        forall|x: u16| #![trigger add16(x, 2)] add16(x, 2) == (x + 2) % 0x10000,
        forall|x: u16| #![trigger add16(x, 1)] add16(x, 1) == (x + 1) % 0x10000,
        forall|x: u16| #![trigger add16(x, -2)] add16(x, -2) == (x + 0x10000 - 2) % 0x10000,
        forall|x: u16| #![trigger add16(add16(x, -1), -1)] add16(add16(x, -1), -1) == (x + 0x10000
            - 2) % 0x10000,
        forall|x: u16| #![trigger add16(x, -1)] add16(x, -1) == (x + 0x10000 - 1) % 0x10000,
        forall|x: u16| #![trigger add16(add16(x, 1), 1)] add16(add16(x, 1), 1) == (x + 2) % 0x10000,
{
    reveal(add16);
    assert forall|x: u16| #![trigger add16(x, -1)] add16(x, -1) == (x + 0x10000 - 1) % 0x10000 by {
        vstd::arithmetic::div_mod::lemma_mod_add_multiples_vanish(x - 1, 0x10000);
    }
    assert forall|x: u16| #![trigger add16(x, -2)] add16(x, -2) == (x + 0x10000 - 2) % 0x10000 by {
        vstd::arithmetic::div_mod::lemma_mod_add_multiples_vanish(x - 2, 0x10000);
    }
}

#[verifier::spinoff_prover]
#[verifier::rlimit(30)]
proof fn lemma_jr(cpu: Cpu, mem: MemoryView)
    requires
        mem.read(cpu.registers.pc as int) == Some(0x18u8),
        step_spec(cpu, mem) is Some,
    ensures
        control_step_is(cpu, mem, 0x18, step_spec(cpu, mem).unwrap()),
{
    reveal(step_spec);
    let r = cpu.registers;
    let c0 = cpu.with_pc(add16(r.pc, 1));
    assert(step_spec(cpu, mem) == execute_00_1f(c0, mem, 0x18));
    lemma_step_arithmetic(cpu);
    lemma_stack_arithmetic(cpu);
    if operand_byte(cpu, mem, 1) is Some {
        lemma_jump_arithmetic(r.pc, operand_byte(cpu, mem, 1).unwrap());
    }
}

#[verifier::spinoff_prover]
#[verifier::rlimit(30)]
proof fn lemma_jr_nz(cpu: Cpu, mem: MemoryView)
    requires
        mem.read(cpu.registers.pc as int) == Some(0x20u8),
        step_spec(cpu, mem) is Some,
    ensures
        control_step_is(cpu, mem, 0x20, step_spec(cpu, mem).unwrap()),
{
    reveal(step_spec);
    let r = cpu.registers;
    let c0 = cpu.with_pc(add16(r.pc, 1));
    assert(step_spec(cpu, mem) == execute_20_3f(c0, mem, 0x20));
    lemma_step_arithmetic(cpu);
    lemma_stack_arithmetic(cpu);
    if operand_byte(cpu, mem, 1) is Some {
        lemma_jump_arithmetic(r.pc, operand_byte(cpu, mem, 1).unwrap());
    }
}

#[verifier::spinoff_prover]
#[verifier::rlimit(30)]
proof fn lemma_jr_z(cpu: Cpu, mem: MemoryView)
    requires
        mem.read(cpu.registers.pc as int) == Some(0x28u8),
        step_spec(cpu, mem) is Some,
    ensures
        control_step_is(cpu, mem, 0x28, step_spec(cpu, mem).unwrap()),
{
    reveal(step_spec);
    let r = cpu.registers;
    let c0 = cpu.with_pc(add16(r.pc, 1));
    assert(step_spec(cpu, mem) == execute_20_3f(c0, mem, 0x28));
    lemma_step_arithmetic(cpu);
    lemma_stack_arithmetic(cpu);
    if operand_byte(cpu, mem, 1) is Some {
        lemma_jump_arithmetic(r.pc, operand_byte(cpu, mem, 1).unwrap());
    }
}

#[verifier::spinoff_prover]
#[verifier::rlimit(30)]
proof fn lemma_ret_nz(cpu: Cpu, mem: MemoryView)
    requires
        mem.read(cpu.registers.pc as int) == Some(0xc0u8),
        step_spec(cpu, mem) is Some,
    ensures
        control_step_is(cpu, mem, 0xc0, step_spec(cpu, mem).unwrap()),
{
    reveal(step_spec);
    let r = cpu.registers;
    let c0 = cpu.with_pc(add16(r.pc, 1));
    assert(step_spec(cpu, mem) == execute_c0_ff(c0, mem, 0xc0));
    lemma_step_arithmetic(cpu);
    lemma_stack_arithmetic(cpu);
}

#[verifier::spinoff_prover]
#[verifier::rlimit(30)]
proof fn lemma_pop_bc(cpu: Cpu, mem: MemoryView)
    requires
        mem.read(cpu.registers.pc as int) == Some(0xc1u8),
        step_spec(cpu, mem) is Some,
    ensures
        control_step_is(cpu, mem, 0xc1, step_spec(cpu, mem).unwrap()),
{
    reveal(step_spec);
    let r = cpu.registers;
    let c0 = cpu.with_pc(add16(r.pc, 1));
    assert(step_spec(cpu, mem) == execute_c0_ff(c0, mem, 0xc1));
    lemma_step_arithmetic(cpu);
    lemma_stack_arithmetic(cpu);
}

#[verifier::spinoff_prover]
#[verifier::rlimit(30)]
proof fn lemma_jp(cpu: Cpu, mem: MemoryView)
    requires
        mem.read(cpu.registers.pc as int) == Some(0xc3u8),
        step_spec(cpu, mem) is Some,
    ensures
        control_step_is(cpu, mem, 0xc3, step_spec(cpu, mem).unwrap()),
{
    reveal(step_spec);
    let r = cpu.registers;
    let c0 = cpu.with_pc(add16(r.pc, 1));
    assert(step_spec(cpu, mem) == execute_c0_ff(c0, mem, 0xc3));
    lemma_step_arithmetic(cpu);
    lemma_stack_arithmetic(cpu);
}

#[verifier::spinoff_prover]
#[verifier::rlimit(30)]
proof fn lemma_push_bc(cpu: Cpu, mem: MemoryView)
    requires
        mem.read(cpu.registers.pc as int) == Some(0xc5u8),
        step_spec(cpu, mem) is Some,
    ensures
        control_step_is(cpu, mem, 0xc5, step_spec(cpu, mem).unwrap()),
{
    reveal(step_spec);
    let r = cpu.registers;
    let c0 = cpu.with_pc(add16(r.pc, 1));
    assert(step_spec(cpu, mem) == execute_c0_ff(c0, mem, 0xc5));
    lemma_step_arithmetic(cpu);
    lemma_stack_arithmetic(cpu);
}

#[verifier::spinoff_prover]
#[verifier::rlimit(30)]
proof fn lemma_ret(cpu: Cpu, mem: MemoryView)
    requires
        mem.read(cpu.registers.pc as int) == Some(0xc9u8),
        step_spec(cpu, mem) is Some,
    ensures
        control_step_is(cpu, mem, 0xc9, step_spec(cpu, mem).unwrap()),
{
    reveal(step_spec);
    let r = cpu.registers;
    let c0 = cpu.with_pc(add16(r.pc, 1));
    assert(step_spec(cpu, mem) == execute_c0_ff(c0, mem, 0xc9));
    lemma_step_arithmetic(cpu);
    lemma_stack_arithmetic(cpu);
}

#[verifier::spinoff_prover]
#[verifier::rlimit(30)]
proof fn lemma_call_z(cpu: Cpu, mem: MemoryView)
    requires
        mem.read(cpu.registers.pc as int) == Some(0xccu8),
        step_spec(cpu, mem) is Some,
    ensures
        control_step_is(cpu, mem, 0xcc, step_spec(cpu, mem).unwrap()),
{
    reveal(step_spec);
    let r = cpu.registers;
    let c0 = cpu.with_pc(add16(r.pc, 1));
    assert(step_spec(cpu, mem) == execute_c0_ff(c0, mem, 0xcc));
    lemma_step_arithmetic(cpu);
    lemma_stack_arithmetic(cpu);
}

#[verifier::spinoff_prover]
#[verifier::rlimit(30)]
proof fn lemma_call(cpu: Cpu, mem: MemoryView)
    requires
        mem.read(cpu.registers.pc as int) == Some(0xcdu8),
        step_spec(cpu, mem) is Some,
    ensures
        control_step_is(cpu, mem, 0xcd, step_spec(cpu, mem).unwrap()),
{
    reveal(step_spec);
    let r = cpu.registers;
    let c0 = cpu.with_pc(add16(r.pc, 1));
    assert(step_spec(cpu, mem) == execute_c0_ff(c0, mem, 0xcd));
    lemma_step_arithmetic(cpu);
    lemma_stack_arithmetic(cpu);
}

#[verifier::spinoff_prover]
#[verifier::rlimit(30)]
proof fn lemma_push_de(cpu: Cpu, mem: MemoryView)
    requires
        mem.read(cpu.registers.pc as int) == Some(0xd5u8),
        step_spec(cpu, mem) is Some,
    ensures
        control_step_is(cpu, mem, 0xd5, step_spec(cpu, mem).unwrap()),
{
    reveal(step_spec);
    let r = cpu.registers;
    let c0 = cpu.with_pc(add16(r.pc, 1));
    assert(step_spec(cpu, mem) == execute_c0_ff(c0, mem, 0xd5));
    lemma_step_arithmetic(cpu);
    lemma_stack_arithmetic(cpu);
}

#[verifier::spinoff_prover]
#[verifier::rlimit(30)]
proof fn lemma_push_hl(cpu: Cpu, mem: MemoryView)
    requires
        mem.read(cpu.registers.pc as int) == Some(0xe5u8),
        step_spec(cpu, mem) is Some,
    ensures
        control_step_is(cpu, mem, 0xe5, step_spec(cpu, mem).unwrap()),
{
    reveal(step_spec);
    let r = cpu.registers;
    let c0 = cpu.with_pc(add16(r.pc, 1));
    assert(step_spec(cpu, mem) == execute_c0_ff(c0, mem, 0xe5));
    lemma_step_arithmetic(cpu);
    lemma_stack_arithmetic(cpu);
}

#[verifier::spinoff_prover]
#[verifier::rlimit(30)]
proof fn lemma_push_af(cpu: Cpu, mem: MemoryView)
    requires
        mem.read(cpu.registers.pc as int) == Some(0xf5u8),
        step_spec(cpu, mem) is Some,
    ensures
        control_step_is(cpu, mem, 0xf5, step_spec(cpu, mem).unwrap()),
{
    reveal(step_spec);
    let r = cpu.registers;
    let c0 = cpu.with_pc(add16(r.pc, 1));
    assert(step_spec(cpu, mem) == execute_c0_ff(c0, mem, 0xf5));
    lemma_step_arithmetic(cpu);
    lemma_stack_arithmetic(cpu);
}

/// Every implemented jump, call, return, PUSH and POP behaves as `control_step_is` says.
#[verifier::spinoff_prover]
#[verifier::rlimit(40)]
pub proof fn lemma_control_instruction(cpu: Cpu, mem: MemoryView, op: u8)
    requires
        op == 0x18 || op == 0x20 || op == 0x28 || op == 0xC0 || op == 0xC1 || op == 0xC3 || op
            == 0xC5 || op == 0xC9 || op == 0xCC || op == 0xCD || op == 0xD5 || op == 0xE5 || op
            == 0xF5,
        mem.read(cpu.registers.pc as int) == Some(op),
        step_spec(cpu, mem) is Some,
    ensures
        control_step_is(cpu, mem, op, step_spec(cpu, mem).unwrap()),
{
    if op == 0x18 {
        lemma_jr(cpu, mem);
    } else if op == 0x20 {
        lemma_jr_nz(cpu, mem);
    } else if op == 0x28 {
        lemma_jr_z(cpu, mem);
    } else if op == 0xc0 {
        lemma_ret_nz(cpu, mem);
    } else if op == 0xc1 {
        lemma_pop_bc(cpu, mem);
    } else if op == 0xc3 {
        lemma_jp(cpu, mem);
    } else if op == 0xc5 {
        lemma_push_bc(cpu, mem);
    } else if op == 0xc9 {
        lemma_ret(cpu, mem);
    } else if op == 0xcc {
        lemma_call_z(cpu, mem);
    } else if op == 0xcd {
        lemma_call(cpu, mem);
    } else if op == 0xd5 {
        lemma_push_de(cpu, mem);
    } else if op == 0xe5 {
        lemma_push_hl(cpu, mem);
    } else if op == 0xf5 {
        lemma_push_af(cpu, mem);
    }
}

/// 1 for a set carry, 0 for a clear one.
pub open spec fn carry_in(f: Flags) -> int {
    if f.c {
        1
    } else {
        0
    }
}

/// What the remaining instructions do:
/// - NOP (0x00) and the unused 0xDD: PC moves past the opcode (4 T-cycles);
/// - DI (0xF3), EI (0xFB): IME cleared or set (4); SCF (0x37): C set, N and H cleared (4);
/// - RLA (0x17): A shifted left, the old C into bit 0 and the old bit 7 into C; RRA (0x1F): A
///   shifted right, the old C into bit 7 and the old bit 0 into C; Z, N, H cleared (4);
/// - LDH (n), A (0xE0), LDH A, (n) (0xF0): A stored to or loaded from 0xFF00 + n (12);
///   LDH (C), A (0xE2): A stored to 0xFF00 + C (8); LD (nn), A (0xEA): A stored to nn (16);
/// - ADC A, n (0xCE), CP A, n (0xFE): as the ALU operations on the byte after the opcode (8);
/// - 0xCB 0x11, RL C: C shifted left through the carry, Z from the result, N and H cleared;
///   0xCB 0x7C, BIT 7, H: Z set when bit 7 of H is clear, N cleared, H set, C kept (8).
/// PC moves past the instruction and nothing else changes.
pub open spec fn misc_step_is(cpu: Cpu, mem: MemoryView, op: u8, step: (Cpu, MemoryView, u8)) -> bool {
    let (c, m, t) = step;
    let r = cpu.registers;
    let f = cpu.flags;
    let a = r.a;
    if op == 0x00 || op == 0xDD || op == 0xF3 || op == 0xFB || op == 0x37 || op == 0x17 || op
        == 0x1F {
        &&& m == mem
        &&& t == 4
        &&& c.ime == (if op == 0xF3 {
            false
        } else if op == 0xFB {
            true
        } else {
            cpu.ime
        })
        &&& if op == 0x17 || op == 0x1F {
            let res: int = if op == 0x17 {
                (2 * a + carry_in(f)) % 256
            } else {
                a / 2 + 128 * carry_in(f)
            };
            &&& c.registers == Registers { a: res as u8, pc: pc_plus(cpu, 1), ..r }
            &&& c.flags == (Flags {
                z: false,
                n: false,
                h: false,
                c: if op == 0x17 {
                    a >= 128
                } else {
                    a % 2 == 1
                },
            })
        } else {
            &&& c.registers == Registers { pc: pc_plus(cpu, 1), ..r }
            &&& c.flags == if op == 0x37 {
                Flags { c: true, n: false, h: false, ..f }
            } else {
                f
            }
        }
    } else if op == 0xE0 || op == 0xF0 || op == 0xE2 {
        let address = 0xFF00 + if op == 0xE2 {
            r.c
        } else {
            operand_byte(cpu, mem, 1).unwrap()
        };
        let len: int = if op == 0xE2 {
            1
        } else {
            2
        };
        &&& op != 0xE2 ==> operand_byte(cpu, mem, 1) is Some
        &&& c.flags == f && c.ime == cpu.ime
        &&& t == (if op == 0xE2 {
            8u8
        } else {
            12u8
        })
        &&& if op == 0xF0 {
            &&& mem.read(address) is Some
            &&& m == mem
            &&& c.registers == Registers { a: mem.read(address).unwrap(), pc: pc_plus(cpu, 2), ..r }
        } else {
            &&& mem.write(address, a) == Some(m)
            &&& c.registers == Registers { pc: pc_plus(cpu, len), ..r }
        }
    } else if op == 0xEA {
        &&& operand_word(cpu, mem) is Some
        &&& mem.write(operand_word(cpu, mem).unwrap(), a) == Some(m)
        &&& t == 16
        &&& c.flags == f && c.ime == cpu.ime
        &&& c.registers == Registers { pc: pc_plus(cpu, 3), ..r }
    } else if op == 0xCE || op == 0xFE {
        let (res, fl) = alu8(
            if op == 0xCE {
                1u8
            } else {
                7u8
            },
            a,
            operand_byte(cpu, mem, 1).unwrap(),
            f.c,
        );
        &&& operand_byte(cpu, mem, 1) is Some
        &&& m == mem
        &&& t == 8
        &&& c.ime == cpu.ime
        &&& c.registers == Registers { a: res, pc: pc_plus(cpu, 2), ..r }
        &&& c.flags == fl
    } else {
        let second = operand_byte(cpu, mem, 1).unwrap();
        &&& op == 0xCB
        &&& operand_byte(cpu, mem, 1) is Some
        &&& m == mem
        &&& t == 8
        &&& c.ime == cpu.ime
        &&& if second == 0x11 {
            let res = (2 * r.c + carry_in(f)) % 256;
            &&& c.registers == Registers { c: res as u8, pc: pc_plus(cpu, 2), ..r }
            &&& c.flags == (Flags { z: res == 0, n: false, h: false, c: r.c >= 128 })
        } else {
            &&& second == 0x7C
            &&& c.registers == Registers { pc: pc_plus(cpu, 2), ..r }
            &&& c.flags == (Flags { z: r.h < 128, n: false, h: true, c: f.c })
        }
    }
}

/// The bit arithmetic of the rotations.
proof fn lemma_rotate_arithmetic(x: u8)
    ensures
        (x << 1u8) | 1u8 == ((2 * x + 1) % 256) as u8,
        (x << 1u8) | 0u8 == ((2 * x) % 256) as u8,
        (x >> 1u8) | 0x80u8 == (x / 2 + 128) as u8,
        (x >> 1u8) | 0x00u8 == (x / 2) as u8,
        (x & 0x80u8 != 0) == (x >= 128),
        (x & 0x01u8 != 0) == (x % 2 == 1),
        nth_bit(x, 7) == (x >= 128),
{
    assert(
        ((x << 1u8) | 1u8 == ((2 * x + 1) % 256) as u8)
        && ((x << 1u8) | 0u8 == ((2 * x) % 256) as u8)
        && ((x >> 1u8) | 0x80u8 == (x / 2 + 128) as u8)
        && ((x >> 1u8) | 0x00u8 == (x / 2) as u8)
        && ((x & 0x80u8 != 0) == (x >= 128))
        && ((x & 0x01u8 != 0) == (x % 2 == 1))
        && ((((x >> 7u8) & 1u8) == 1u8) == (x >= 128))
    ) by (bit_vector);
}

#[verifier::spinoff_prover]
#[verifier::rlimit(30)]
proof fn lemma_nop(cpu: Cpu, mem: MemoryView)
    requires
        mem.read(cpu.registers.pc as int) == Some(0x00u8),
        step_spec(cpu, mem) is Some,
    ensures
        misc_step_is(cpu, mem, 0x00, step_spec(cpu, mem).unwrap()),
{
    reveal(step_spec);
    let r = cpu.registers;
    let c0 = cpu.with_pc(add16(r.pc, 1));
    assert(step_spec(cpu, mem) == execute_00_1f(c0, mem, 0x00));
    lemma_step_arithmetic(cpu);
    lemma_rotate_arithmetic(r.a);
    lemma_rotate_arithmetic(r.c);
    lemma_rotate_arithmetic(r.h);
    if operand_byte(cpu, mem, 1) is Some {
        lemma_alu_arithmetic(r.a, operand_byte(cpu, mem, 1).unwrap());
    }
}

#[verifier::spinoff_prover]
#[verifier::rlimit(30)]
proof fn lemma_rla(cpu: Cpu, mem: MemoryView)
    requires
        mem.read(cpu.registers.pc as int) == Some(0x17u8),
        step_spec(cpu, mem) is Some,
    ensures
        misc_step_is(cpu, mem, 0x17, step_spec(cpu, mem).unwrap()),
{
    reveal(step_spec);
    let r = cpu.registers;
    let c0 = cpu.with_pc(add16(r.pc, 1));
    assert(step_spec(cpu, mem) == execute_00_1f(c0, mem, 0x17));
    lemma_step_arithmetic(cpu);
    lemma_rotate_arithmetic(r.a);
    lemma_rotate_arithmetic(r.c);
    lemma_rotate_arithmetic(r.h);
    if operand_byte(cpu, mem, 1) is Some {
        lemma_alu_arithmetic(r.a, operand_byte(cpu, mem, 1).unwrap());
    }
}

#[verifier::spinoff_prover]
#[verifier::rlimit(30)]
proof fn lemma_rra(cpu: Cpu, mem: MemoryView)
    requires
        mem.read(cpu.registers.pc as int) == Some(0x1fu8),
        step_spec(cpu, mem) is Some,
    ensures
        misc_step_is(cpu, mem, 0x1f, step_spec(cpu, mem).unwrap()),
{
    reveal(step_spec);
    let r = cpu.registers;
    let c0 = cpu.with_pc(add16(r.pc, 1));
    assert(step_spec(cpu, mem) == execute_00_1f(c0, mem, 0x1f));
    lemma_step_arithmetic(cpu);
    lemma_rotate_arithmetic(r.a);
    lemma_rotate_arithmetic(r.c);
    lemma_rotate_arithmetic(r.h);
    if operand_byte(cpu, mem, 1) is Some {
        lemma_alu_arithmetic(r.a, operand_byte(cpu, mem, 1).unwrap());
    }
}

#[verifier::spinoff_prover]
#[verifier::rlimit(30)]
proof fn lemma_scf(cpu: Cpu, mem: MemoryView)
    requires
        mem.read(cpu.registers.pc as int) == Some(0x37u8),
        step_spec(cpu, mem) is Some,
    ensures
        misc_step_is(cpu, mem, 0x37, step_spec(cpu, mem).unwrap()),
{
    reveal(step_spec);
    let r = cpu.registers;
    let c0 = cpu.with_pc(add16(r.pc, 1));
    assert(step_spec(cpu, mem) == execute_20_3f(c0, mem, 0x37));
    lemma_step_arithmetic(cpu);
    lemma_rotate_arithmetic(r.a);
    lemma_rotate_arithmetic(r.c);
    lemma_rotate_arithmetic(r.h);
    if operand_byte(cpu, mem, 1) is Some {
        lemma_alu_arithmetic(r.a, operand_byte(cpu, mem, 1).unwrap());
    }
}

#[verifier::spinoff_prover]
#[verifier::rlimit(30)]
proof fn lemma_prefixed(cpu: Cpu, mem: MemoryView)
    requires
        mem.read(cpu.registers.pc as int) == Some(0xcbu8),
        step_spec(cpu, mem) is Some,
    ensures
        misc_step_is(cpu, mem, 0xcb, step_spec(cpu, mem).unwrap()),
{
    reveal(step_spec);
    let r = cpu.registers;
    let c0 = cpu.with_pc(add16(r.pc, 1));
    assert(step_spec(cpu, mem) == execute_c0_ff(c0, mem, 0xcb));
    lemma_step_arithmetic(cpu);
    lemma_rotate_arithmetic(r.a);
    lemma_rotate_arithmetic(r.c);
    lemma_rotate_arithmetic(r.h);
    if operand_byte(cpu, mem, 1) is Some {
        lemma_alu_arithmetic(r.a, operand_byte(cpu, mem, 1).unwrap());
    }
}

#[verifier::spinoff_prover]
#[verifier::rlimit(30)]
proof fn lemma_adc_a_n(cpu: Cpu, mem: MemoryView)
    requires
        mem.read(cpu.registers.pc as int) == Some(0xceu8),
        step_spec(cpu, mem) is Some,
    ensures
        misc_step_is(cpu, mem, 0xce, step_spec(cpu, mem).unwrap()),
{
    reveal(step_spec);
    let r = cpu.registers;
    let c0 = cpu.with_pc(add16(r.pc, 1));
    assert(step_spec(cpu, mem) == execute_c0_ff(c0, mem, 0xce));
    lemma_step_arithmetic(cpu);
    lemma_rotate_arithmetic(r.a);
    lemma_rotate_arithmetic(r.c);
    lemma_rotate_arithmetic(r.h);
    if operand_byte(cpu, mem, 1) is Some {
        lemma_alu_arithmetic(r.a, operand_byte(cpu, mem, 1).unwrap());
    }
}

#[verifier::spinoff_prover]
#[verifier::rlimit(30)]
proof fn lemma_unused_dd(cpu: Cpu, mem: MemoryView)
    requires
        mem.read(cpu.registers.pc as int) == Some(0xddu8),
        step_spec(cpu, mem) is Some,
    ensures
        misc_step_is(cpu, mem, 0xdd, step_spec(cpu, mem).unwrap()),
{
    reveal(step_spec);
    let r = cpu.registers;
    let c0 = cpu.with_pc(add16(r.pc, 1));
    assert(step_spec(cpu, mem) == execute_c0_ff(c0, mem, 0xdd));
    lemma_step_arithmetic(cpu);
    lemma_rotate_arithmetic(r.a);
    lemma_rotate_arithmetic(r.c);
    lemma_rotate_arithmetic(r.h);
    if operand_byte(cpu, mem, 1) is Some {
        lemma_alu_arithmetic(r.a, operand_byte(cpu, mem, 1).unwrap());
    }
}

#[verifier::spinoff_prover]
#[verifier::rlimit(30)]
proof fn lemma_ldh_n_a(cpu: Cpu, mem: MemoryView)
    requires
        mem.read(cpu.registers.pc as int) == Some(0xe0u8),
        step_spec(cpu, mem) is Some,
    ensures
        misc_step_is(cpu, mem, 0xe0, step_spec(cpu, mem).unwrap()),
{
    reveal(step_spec);
    let r = cpu.registers;
    let c0 = cpu.with_pc(add16(r.pc, 1));
    assert(step_spec(cpu, mem) == execute_c0_ff(c0, mem, 0xe0));
    lemma_step_arithmetic(cpu);
    lemma_rotate_arithmetic(r.a);
    lemma_rotate_arithmetic(r.c);
    lemma_rotate_arithmetic(r.h);
    if operand_byte(cpu, mem, 1) is Some {
        lemma_alu_arithmetic(r.a, operand_byte(cpu, mem, 1).unwrap());
    }
}

#[verifier::spinoff_prover]
#[verifier::rlimit(30)]
proof fn lemma_ldh_c_a(cpu: Cpu, mem: MemoryView)
    requires
        mem.read(cpu.registers.pc as int) == Some(0xe2u8),
        step_spec(cpu, mem) is Some,
    ensures
        misc_step_is(cpu, mem, 0xe2, step_spec(cpu, mem).unwrap()),
{
    reveal(step_spec);
    let r = cpu.registers;
    let c0 = cpu.with_pc(add16(r.pc, 1));
    assert(step_spec(cpu, mem) == execute_c0_ff(c0, mem, 0xe2));
    lemma_step_arithmetic(cpu);
    lemma_rotate_arithmetic(r.a);
    lemma_rotate_arithmetic(r.c);
    lemma_rotate_arithmetic(r.h);
    if operand_byte(cpu, mem, 1) is Some {
        lemma_alu_arithmetic(r.a, operand_byte(cpu, mem, 1).unwrap());
    }
}

#[verifier::spinoff_prover]
#[verifier::rlimit(30)]
proof fn lemma_ld_nn_a(cpu: Cpu, mem: MemoryView)
    requires
        mem.read(cpu.registers.pc as int) == Some(0xeau8),
        step_spec(cpu, mem) is Some,
    ensures
        misc_step_is(cpu, mem, 0xea, step_spec(cpu, mem).unwrap()),
{
    reveal(step_spec);
    let r = cpu.registers;
    let c0 = cpu.with_pc(add16(r.pc, 1));
    assert(step_spec(cpu, mem) == execute_c0_ff(c0, mem, 0xea));
    lemma_step_arithmetic(cpu);
    lemma_rotate_arithmetic(r.a);
    lemma_rotate_arithmetic(r.c);
    lemma_rotate_arithmetic(r.h);
    if operand_byte(cpu, mem, 1) is Some {
        lemma_alu_arithmetic(r.a, operand_byte(cpu, mem, 1).unwrap());
    }
}

#[verifier::spinoff_prover]
#[verifier::rlimit(30)]
proof fn lemma_ldh_a_n(cpu: Cpu, mem: MemoryView)
    requires
        mem.read(cpu.registers.pc as int) == Some(0xf0u8),
        step_spec(cpu, mem) is Some,
    ensures
        misc_step_is(cpu, mem, 0xf0, step_spec(cpu, mem).unwrap()),
{
    reveal(step_spec);
    let r = cpu.registers;
    let c0 = cpu.with_pc(add16(r.pc, 1));
    assert(step_spec(cpu, mem) == execute_c0_ff(c0, mem, 0xf0));
    lemma_step_arithmetic(cpu);
    lemma_rotate_arithmetic(r.a);
    lemma_rotate_arithmetic(r.c);
    lemma_rotate_arithmetic(r.h);
    if operand_byte(cpu, mem, 1) is Some {
        lemma_alu_arithmetic(r.a, operand_byte(cpu, mem, 1).unwrap());
    }
}

#[verifier::spinoff_prover]
#[verifier::rlimit(30)]
proof fn lemma_di(cpu: Cpu, mem: MemoryView)
    requires
        mem.read(cpu.registers.pc as int) == Some(0xf3u8),
        step_spec(cpu, mem) is Some,
    ensures
        misc_step_is(cpu, mem, 0xf3, step_spec(cpu, mem).unwrap()),
{
    reveal(step_spec);
    let r = cpu.registers;
    let c0 = cpu.with_pc(add16(r.pc, 1));
    assert(step_spec(cpu, mem) == execute_c0_ff(c0, mem, 0xf3));
    lemma_step_arithmetic(cpu);
    lemma_rotate_arithmetic(r.a);
    lemma_rotate_arithmetic(r.c);
    lemma_rotate_arithmetic(r.h);
    if operand_byte(cpu, mem, 1) is Some {
        lemma_alu_arithmetic(r.a, operand_byte(cpu, mem, 1).unwrap());
    }
}

#[verifier::spinoff_prover]
#[verifier::rlimit(30)]
proof fn lemma_ei(cpu: Cpu, mem: MemoryView)
    requires
        mem.read(cpu.registers.pc as int) == Some(0xfbu8),
        step_spec(cpu, mem) is Some,
    ensures
        misc_step_is(cpu, mem, 0xfb, step_spec(cpu, mem).unwrap()),
{
    reveal(step_spec);
    let r = cpu.registers;
    let c0 = cpu.with_pc(add16(r.pc, 1));
    assert(step_spec(cpu, mem) == execute_c0_ff(c0, mem, 0xfb));
    lemma_step_arithmetic(cpu);
    lemma_rotate_arithmetic(r.a);
    lemma_rotate_arithmetic(r.c);
    lemma_rotate_arithmetic(r.h);
    if operand_byte(cpu, mem, 1) is Some {
        lemma_alu_arithmetic(r.a, operand_byte(cpu, mem, 1).unwrap());
    }
}

#[verifier::spinoff_prover]
#[verifier::rlimit(80)]
proof fn lemma_cp_a_n(cpu: Cpu, mem: MemoryView)
    requires
        mem.read(cpu.registers.pc as int) == Some(0xfeu8),
        step_spec(cpu, mem) is Some,
    ensures
        misc_step_is(cpu, mem, 0xfe, step_spec(cpu, mem).unwrap()),
{
    reveal(step_spec);
    let r = cpu.registers;
    let c0 = cpu.with_pc(add16(r.pc, 1));
    assert(step_spec(cpu, mem) == execute_c0_ff(c0, mem, 0xfe));
    let n = operand_byte(cpu, mem, 1).unwrap();
    assert(fetch8(c0, mem) == Some((c0.with_pc(add16(c0.registers.pc, 1)), n))) by {
        lemma_step_arithmetic(cpu);
    }
    lemma_step_arithmetic(cpu);
    lemma_rotate_arithmetic(r.a);
    lemma_rotate_arithmetic(r.c);
    lemma_rotate_arithmetic(r.h);
    if operand_byte(cpu, mem, 1) is Some {
        lemma_alu_arithmetic(r.a, operand_byte(cpu, mem, 1).unwrap());
    }
}

/// Every implemented instruction not covered by the families above behaves as
/// `misc_step_is` says.
#[verifier::spinoff_prover]
#[verifier::rlimit(40)]
pub proof fn lemma_misc_instruction(cpu: Cpu, mem: MemoryView, op: u8)
    requires
        op == 0x00 || op == 0x17 || op == 0x1F || op == 0x37 || op == 0xCB || op == 0xCE || op
            == 0xDD || op == 0xE0 || op == 0xE2 || op == 0xEA || op == 0xF0 || op == 0xF3 || op
            == 0xFB || op == 0xFE,
        mem.read(cpu.registers.pc as int) == Some(op),
        step_spec(cpu, mem) is Some,
    ensures
        misc_step_is(cpu, mem, op, step_spec(cpu, mem).unwrap()),
{
    if op == 0x00 {
        lemma_nop(cpu, mem);
    } else if op == 0x17 {
        lemma_rla(cpu, mem);
    } else if op == 0x1f {
        lemma_rra(cpu, mem);
    } else if op == 0x37 {
        lemma_scf(cpu, mem);
    } else if op == 0xcb {
        lemma_prefixed(cpu, mem);
    } else if op == 0xce {
        lemma_adc_a_n(cpu, mem);
    } else if op == 0xdd {
        lemma_unused_dd(cpu, mem);
    } else if op == 0xe0 {
        lemma_ldh_n_a(cpu, mem);
    } else if op == 0xe2 {
        lemma_ldh_c_a(cpu, mem);
    } else if op == 0xea {
        lemma_ld_nn_a(cpu, mem);
    } else if op == 0xf0 {
        lemma_ldh_a_n(cpu, mem);
    } else if op == 0xf3 {
        lemma_di(cpu, mem);
    } else if op == 0xfb {
        lemma_ei(cpu, mem);
    } else if op == 0xfe {
        lemma_cp_a_n(cpu, mem);
    }
}

/// What an opcode 0x40-0x7F does, as its bits say: LD of the operand that the low three bits
/// name (B, C, D, E, H, L, the byte at HL, A) into the one that bits 3-5 name. PC moves past
/// the opcode; the step takes 4 T-cycles, 8 when the byte at HL is read or written; the flags
/// stay and nothing else changes.
pub open spec fn load_step_is(cpu: Cpu, mem: MemoryView, op: u8, step: (Cpu, MemoryView, u8)) -> bool {
    let (c, m, t) = step;
    let dst = (op / 8) % 8;
    let src = op % 8;
    let r = cpu.registers;
    &&& operand8(cpu, mem, src) is Some
    &&& c.flags == cpu.flags
    &&& c.ime == cpu.ime
    &&& if dst == 6 {
        &&& mem.write(pair(r.h, r.l), reg8(r, src)) == Some(m)
        &&& t == 8
        &&& c.registers == Registers { pc: pc_plus(cpu, 1), ..r }
    } else {
        &&& m == mem
        &&& t == (if src == 6 {
            8u8
        } else {
            4u8
        })
        &&& c.registers == Registers {
            pc: pc_plus(cpu, 1),
            ..reg8_set(r, dst, operand8(cpu, mem, src).unwrap())
        }
    }
}

#[verifier::spinoff_prover]
#[verifier::rlimit(30)]
proof fn lemma_ld_b_a(cpu: Cpu, mem: MemoryView)
    requires
        mem.read(cpu.registers.pc as int) == Some(0x47u8),
        step_spec(cpu, mem) is Some,
    ensures
        load_step_is(cpu, mem, 0x47, step_spec(cpu, mem).unwrap()),
{
    reveal(step_spec);
    let r = cpu.registers;
    let c0 = cpu.with_pc(add16(r.pc, 1));
    assert(step_spec(cpu, mem) == execute_40_bf(c0, mem, 0x47));
    lemma_step_arithmetic(cpu);
}

#[verifier::spinoff_prover]
#[verifier::rlimit(30)]
proof fn lemma_ld_c_c(cpu: Cpu, mem: MemoryView)
    requires
        mem.read(cpu.registers.pc as int) == Some(0x49u8),
        step_spec(cpu, mem) is Some,
    ensures
        load_step_is(cpu, mem, 0x49, step_spec(cpu, mem).unwrap()),
{
    reveal(step_spec);
    let r = cpu.registers;
    let c0 = cpu.with_pc(add16(r.pc, 1));
    assert(step_spec(cpu, mem) == execute_40_bf(c0, mem, 0x49));
    lemma_step_arithmetic(cpu);
}

#[verifier::spinoff_prover]
#[verifier::rlimit(30)]
proof fn lemma_ld_c_a(cpu: Cpu, mem: MemoryView)
    requires
        mem.read(cpu.registers.pc as int) == Some(0x4fu8),
        step_spec(cpu, mem) is Some,
    ensures
        load_step_is(cpu, mem, 0x4f, step_spec(cpu, mem).unwrap()),
{
    reveal(step_spec);
    let r = cpu.registers;
    let c0 = cpu.with_pc(add16(r.pc, 1));
    assert(step_spec(cpu, mem) == execute_40_bf(c0, mem, 0x4f));
    lemma_step_arithmetic(cpu);
}

#[verifier::spinoff_prover]
#[verifier::rlimit(30)]
proof fn lemma_ld_d_a(cpu: Cpu, mem: MemoryView)
    requires
        mem.read(cpu.registers.pc as int) == Some(0x57u8),
        step_spec(cpu, mem) is Some,
    ensures
        load_step_is(cpu, mem, 0x57, step_spec(cpu, mem).unwrap()),
{
    reveal(step_spec);
    let r = cpu.registers;
    let c0 = cpu.with_pc(add16(r.pc, 1));
    assert(step_spec(cpu, mem) == execute_40_bf(c0, mem, 0x57));
    lemma_step_arithmetic(cpu);
}

#[verifier::spinoff_prover]
#[verifier::rlimit(30)]
proof fn lemma_ld_h_hl(cpu: Cpu, mem: MemoryView)
    requires
        mem.read(cpu.registers.pc as int) == Some(0x66u8),
        step_spec(cpu, mem) is Some,
    ensures
        load_step_is(cpu, mem, 0x66, step_spec(cpu, mem).unwrap()),
{
    reveal(step_spec);
    let r = cpu.registers;
    let c0 = cpu.with_pc(add16(r.pc, 1));
    assert(step_spec(cpu, mem) == execute_40_bf(c0, mem, 0x66));
    lemma_step_arithmetic(cpu);
}

#[verifier::spinoff_prover]
#[verifier::rlimit(30)]
proof fn lemma_ld_h_a(cpu: Cpu, mem: MemoryView)
    requires
        mem.read(cpu.registers.pc as int) == Some(0x67u8),
        step_spec(cpu, mem) is Some,
    ensures
        load_step_is(cpu, mem, 0x67, step_spec(cpu, mem).unwrap()),
{
    reveal(step_spec);
    let r = cpu.registers;
    let c0 = cpu.with_pc(add16(r.pc, 1));
    assert(step_spec(cpu, mem) == execute_40_bf(c0, mem, 0x67));
    lemma_step_arithmetic(cpu);
}

#[verifier::spinoff_prover]
#[verifier::rlimit(30)]
proof fn lemma_ld_hl_e(cpu: Cpu, mem: MemoryView)
    requires
        mem.read(cpu.registers.pc as int) == Some(0x73u8),
        step_spec(cpu, mem) is Some,
    ensures
        load_step_is(cpu, mem, 0x73, step_spec(cpu, mem).unwrap()),
{
    reveal(step_spec);
    let r = cpu.registers;
    let c0 = cpu.with_pc(add16(r.pc, 1));
    assert(step_spec(cpu, mem) == execute_40_bf(c0, mem, 0x73));
    lemma_step_arithmetic(cpu);
}

#[verifier::spinoff_prover]
#[verifier::rlimit(30)]
proof fn lemma_ld_hl_a(cpu: Cpu, mem: MemoryView)
    requires
        mem.read(cpu.registers.pc as int) == Some(0x77u8),
        step_spec(cpu, mem) is Some,
    ensures
        load_step_is(cpu, mem, 0x77, step_spec(cpu, mem).unwrap()),
{
    reveal(step_spec);
    let r = cpu.registers;
    let c0 = cpu.with_pc(add16(r.pc, 1));
    assert(step_spec(cpu, mem) == execute_40_bf(c0, mem, 0x77));
    lemma_step_arithmetic(cpu);
}

#[verifier::spinoff_prover]
#[verifier::rlimit(30)]
proof fn lemma_ld_a_b(cpu: Cpu, mem: MemoryView)
    requires
        mem.read(cpu.registers.pc as int) == Some(0x78u8),
        step_spec(cpu, mem) is Some,
    ensures
        load_step_is(cpu, mem, 0x78, step_spec(cpu, mem).unwrap()),
{
    reveal(step_spec);
    let r = cpu.registers;
    let c0 = cpu.with_pc(add16(r.pc, 1));
    assert(step_spec(cpu, mem) == execute_40_bf(c0, mem, 0x78));
    lemma_step_arithmetic(cpu);
}

#[verifier::spinoff_prover]
#[verifier::rlimit(30)]
proof fn lemma_ld_a_e(cpu: Cpu, mem: MemoryView)
    requires
        mem.read(cpu.registers.pc as int) == Some(0x7bu8),
        step_spec(cpu, mem) is Some,
    ensures
        load_step_is(cpu, mem, 0x7b, step_spec(cpu, mem).unwrap()),
{
    reveal(step_spec);
    let r = cpu.registers;
    let c0 = cpu.with_pc(add16(r.pc, 1));
    assert(step_spec(cpu, mem) == execute_40_bf(c0, mem, 0x7b));
    lemma_step_arithmetic(cpu);
}

#[verifier::spinoff_prover]
#[verifier::rlimit(30)]
proof fn lemma_ld_a_h(cpu: Cpu, mem: MemoryView)
    requires
        mem.read(cpu.registers.pc as int) == Some(0x7cu8),
        step_spec(cpu, mem) is Some,
    ensures
        load_step_is(cpu, mem, 0x7c, step_spec(cpu, mem).unwrap()),
{
    reveal(step_spec);
    let r = cpu.registers;
    let c0 = cpu.with_pc(add16(r.pc, 1));
    assert(step_spec(cpu, mem) == execute_40_bf(c0, mem, 0x7c));
    lemma_step_arithmetic(cpu);
}

#[verifier::spinoff_prover]
#[verifier::rlimit(30)]
proof fn lemma_ld_a_l(cpu: Cpu, mem: MemoryView)
    requires
        mem.read(cpu.registers.pc as int) == Some(0x7du8),
        step_spec(cpu, mem) is Some,
    ensures
        load_step_is(cpu, mem, 0x7d, step_spec(cpu, mem).unwrap()),
{
    reveal(step_spec);
    let r = cpu.registers;
    let c0 = cpu.with_pc(add16(r.pc, 1));
    assert(step_spec(cpu, mem) == execute_40_bf(c0, mem, 0x7d));
    lemma_step_arithmetic(cpu);
}

#[verifier::spinoff_prover]
#[verifier::rlimit(30)]
proof fn lemma_ld_a_hl(cpu: Cpu, mem: MemoryView)
    requires
        mem.read(cpu.registers.pc as int) == Some(0x7eu8),
        step_spec(cpu, mem) is Some,
    ensures
        load_step_is(cpu, mem, 0x7e, step_spec(cpu, mem).unwrap()),
{
    reveal(step_spec);
    let r = cpu.registers;
    let c0 = cpu.with_pc(add16(r.pc, 1));
    assert(step_spec(cpu, mem) == execute_40_bf(c0, mem, 0x7e));
    lemma_step_arithmetic(cpu);
}

#[verifier::spinoff_prover]
#[verifier::rlimit(30)]
proof fn lemma_ld_a_a(cpu: Cpu, mem: MemoryView)
    requires
        mem.read(cpu.registers.pc as int) == Some(0x7fu8),
        step_spec(cpu, mem) is Some,
    ensures
        load_step_is(cpu, mem, 0x7f, step_spec(cpu, mem).unwrap()),
{
    reveal(step_spec);
    let r = cpu.registers;
    let c0 = cpu.with_pc(add16(r.pc, 1));
    assert(step_spec(cpu, mem) == execute_40_bf(c0, mem, 0x7f));
    lemma_step_arithmetic(cpu);
}

/// Every implemented opcode 0x40-0x7F behaves as its bits say (see `load_step_is`).
#[verifier::spinoff_prover]
#[verifier::rlimit(40)]
pub proof fn lemma_load_instruction(cpu: Cpu, mem: MemoryView, op: u8)
    requires
        0x40 <= op <= 0x7F,
        mem.read(cpu.registers.pc as int) == Some(op),
        step_spec(cpu, mem) is Some,
    ensures
        load_step_is(cpu, mem, op, step_spec(cpu, mem).unwrap()),
{
    if op == 0x47 {
        lemma_ld_b_a(cpu, mem);
    } else if op == 0x49 {
        lemma_ld_c_c(cpu, mem);
    } else if op == 0x4f {
        lemma_ld_c_a(cpu, mem);
    } else if op == 0x57 {
        lemma_ld_d_a(cpu, mem);
    } else if op == 0x66 {
        lemma_ld_h_hl(cpu, mem);
    } else if op == 0x67 {
        lemma_ld_h_a(cpu, mem);
    } else if op == 0x73 {
        lemma_ld_hl_e(cpu, mem);
    } else if op == 0x77 {
        lemma_ld_hl_a(cpu, mem);
    } else if op == 0x78 {
        lemma_ld_a_b(cpu, mem);
    } else if op == 0x7b {
        lemma_ld_a_e(cpu, mem);
    } else if op == 0x7c {
        lemma_ld_a_h(cpu, mem);
    } else if op == 0x7d {
        lemma_ld_a_l(cpu, mem);
    } else if op == 0x7e {
        lemma_ld_a_hl(cpu, mem);
    } else if op == 0x7f {
        lemma_ld_a_a(cpu, mem);
    } else {
        reveal(step_spec);
        let c0 = cpu.with_pc(add16(cpu.registers.pc, 1));
        assert(step_spec(cpu, mem) == execute_40_bf(c0, mem, op));
    }
}

} // verus!
