use vstd::prelude::*;
use crate::bits::lemma_wrap16;
use crate::cpu::{target_of, Flag, RegisterTarget, Step};
use crate::isa_laws::{
    advanced, alu_instruction, alu_operand, law_step_add, law_step_subtract,
    lemma_daa_after_add_flags, lemma_daa_after_sub_flags, lemma_put_flag_low_nibble, lemma_step_at,
    lemma_step_unfold, only_a_and_flags_change, operand_by_code, put_by_code,
};
use crate::laws::{bcd_ok, bcd_value, lemma_flag_of_put};
use crate::memory::MEMORY_SIZE;
use crate::semantics::{
    add_hl, daa, dec_target, execute_high, execute_low, faults, fetch, inc_target, low,
    read_target, rla, rlca, rra, rrca, sp_plus_immediate_flags, step, wrap16, CpuState,
    RegisterState,
};

verus! {

/// `s` with the flag byte replaced by `f`.
pub open spec fn with_flags(s: CpuState, f: u8) -> CpuState {
    s.with_reg(RegisterState { f, ..s.reg })
}

/// `INC r` (0x04, 0x0C, ..., 0x3C) adds one modulo 256 to the operand that bits 3 to 5 name; Z is
/// set exactly when the result is zero, N is cleared, H is set when the low nibble was 0xF, and
/// C and the low nibble of F are kept. Nothing else changes but PC and the recorded opcode.
#[verifier::spinoff_prover]
pub proof fn law_step_increment(s: CpuState)
    requires
        s.mem.len() == MEMORY_SIZE,
        s.backed(s.reg.pc as int),
        s.read(s.reg.pc) < 0x40,
        s.read(s.reg.pc) % 8 == 4,
        s.read(s.reg.pc) == 0x34 ==> s.backed(s.reg.hl() as int),
    ensures
        !faults(s),
        step(s).1 == Step::Continue,
        ({
            let code = s.read(s.reg.pc) / 8;
            let v = operand_by_code(s, code);
            let r = ((v + 1) % 256) as u8;
            let t = step(s).0;
            &&& t == put_by_code(with_flags(advanced(s, 1), t.reg.f), code, r)
            &&& t.reg.flag(Flag::Z) == (r == 0)
            &&& !t.reg.flag(Flag::N)
            &&& t.reg.flag(Flag::H) == (v % 16 == 15)
            &&& t.reg.flag(Flag::C) == s.reg.flag(Flag::C)
            &&& t.reg.f & 0x0f == s.reg.f & 0x0f
        }),
{
    broadcast use lemma_flag_of_put, lemma_put_flag_low_nibble;

    lemma_step_unfold(s);
    let op = s.read(s.reg.pc);
    let u = CpuState { opcode: op, ..fetch(s).0 };
    let target = if op == 0x34 {
        RegisterTarget::MemoryAdress(u.reg.hl())
    } else {
        target_of(op / 8)
    };
    assert(execute_low(u, op) == (inc_target(u, target, true), Step::Continue)) by {
        reveal(execute_low);
    }
    if op == 0x04 {
    } else if op == 0x0C {
    } else if op == 0x14 {
    } else if op == 0x1C {
    } else if op == 0x24 {
    } else if op == 0x2C {
    } else if op == 0x34 {
    } else {
    }
}

proof fn lemma_decrement_byte(v: u16)
    ensures
        v < 256 ==> low(wrap16(v - 1)) == (v + 255) % 256,
{
}

/// `DEC r` (0x05, 0x0D, ..., 0x3D) subtracts one modulo 256 from the operand that bits 3 to 5
/// name; Z is set exactly when the result is zero, N is set, H is set when the low nibble was 0,
/// and C and the low nibble of F are kept. Nothing else changes but PC and the recorded opcode.
#[verifier::spinoff_prover]
#[verifier::rlimit(40)]
pub proof fn law_step_decrement(s: CpuState)
    requires
        s.mem.len() == MEMORY_SIZE,
        s.backed(s.reg.pc as int),
        s.read(s.reg.pc) < 0x40,
        s.read(s.reg.pc) % 8 == 5,
        s.read(s.reg.pc) == 0x35 ==> s.backed(s.reg.hl() as int),
    ensures
        !faults(s),
        step(s).1 == Step::Continue,
        ({
            let code = s.read(s.reg.pc) / 8;
            let v = operand_by_code(s, code);
            let r = ((v + 255) % 256) as u8;
            let t = step(s).0;
            &&& t == put_by_code(with_flags(advanced(s, 1), t.reg.f), code, r)
            &&& t.reg.flag(Flag::Z) == (r == 0)
            &&& t.reg.flag(Flag::N)
            &&& t.reg.flag(Flag::H) == (v % 16 == 0)
            &&& t.reg.flag(Flag::C) == s.reg.flag(Flag::C)
            &&& t.reg.f & 0x0f == s.reg.f & 0x0f
        }),
{
    broadcast use lemma_flag_of_put, lemma_put_flag_low_nibble;

    lemma_step_unfold(s);
    let op = s.read(s.reg.pc);
    let u = CpuState { opcode: op, ..fetch(s).0 };
    let target = if op == 0x35 {
        RegisterTarget::MemoryAdress(u.reg.hl())
    } else {
        target_of(op / 8)
    };
    assert(execute_low(u, op) == (dec_target(u, target, true), Step::Continue)) by {
        reveal(execute_low);
    }
    lemma_decrement_byte(read_target(u, target));
    if op == 0x05 {
    } else if op == 0x0D {
    } else if op == 0x15 {
    } else if op == 0x1D {
    } else if op == 0x25 {
    } else if op == 0x2D {
    } else if op == 0x35 {
    } else {
    }
}

/// The register pair that bits 4 and 5 of an opcode name: BC, DE, HL or SP.
pub open spec fn pair_by_code(s: CpuState, code: u8) -> int {
    if code == 0 {
        s.reg.b * 256 + s.reg.c
    } else if code == 1 {
        s.reg.d * 256 + s.reg.e
    } else if code == 2 {
        s.reg.h * 256 + s.reg.l
    } else {
        s.reg.sp as int
    }
}

/// `s` with the word `v` (below 2^16) written to the pair that a two-bit code names, the high
/// byte into B, D or H.
pub open spec fn put_pair_by_code(s: CpuState, code: u8, v: int) -> CpuState {
    let hi = (v / 256) as u8;
    let lo = (v % 256) as u8;
    if code == 0 {
        s.with_reg(RegisterState { b: hi, c: lo, ..s.reg })
    } else if code == 1 {
        s.with_reg(RegisterState { d: hi, e: lo, ..s.reg })
    } else if code == 2 {
        s.with_reg(RegisterState { h: hi, l: lo, ..s.reg })
    } else {
        s.with_reg(RegisterState { sp: v as u16, ..s.reg })
    }
}

proof fn lemma_pair_step(s: CpuState, code: u8, v: u16)
    requires
        code < 4,
    ensures
        code == 0 ==> s.reg.with_bc(v) == put_pair_by_code(s, code, v as int).reg,
        code == 1 ==> s.reg.with_de(v) == put_pair_by_code(s, code, v as int).reg,
        code == 2 ==> s.reg.with_hl(v) == put_pair_by_code(s, code, v as int).reg,
        code == 0 ==> s.reg.bc() == pair_by_code(s, code),
        code == 1 ==> s.reg.de() == pair_by_code(s, code),
        code == 2 ==> s.reg.hl() == pair_by_code(s, code),
{
}

/// `INC rr` (0x03, 0x13, 0x23, 0x33) adds one modulo 2^16 to the pair that bits 4 and 5 name and
/// `DEC rr` (0x0B, 0x1B, 0x2B, 0x3B) subtracts one; no flag and nothing else changes but PC and
/// the recorded opcode.
#[verifier::spinoff_prover]
#[verifier::rlimit(40)]
pub proof fn law_step_increment_decrement_pair(s: CpuState)
    requires
        s.mem.len() == MEMORY_SIZE,
        s.backed(s.reg.pc as int),
        s.read(s.reg.pc) < 0x40,
        s.read(s.reg.pc) % 8 == 3,
    ensures
        !faults(s),
        step(s).1 == Step::Continue,
        step(s).0 == ({
            let op = s.read(s.reg.pc);
            let v = pair_by_code(s, op / 16);
            put_pair_by_code(
                advanced(s, 1),
                op / 16,
                if op % 16 == 3 {
                    (v + 1) % 0x10000
                } else {
                    (v + 0xFFFF) % 0x10000
                },
            )
        }),
{
    lemma_step_unfold(s);
    let op = s.read(s.reg.pc);
    let u = CpuState { opcode: op, ..fetch(s).0 };
    let code = op / 16;
    let pair = if code == 0 {
        RegisterTarget::BC
    } else if code == 1 {
        RegisterTarget::DE
    } else if code == 2 {
        RegisterTarget::HL
    } else {
        RegisterTarget::SP
    };
    assert(execute_low(u, op) == (
        if op % 16 == 3 {
            inc_target(u, pair, false)
        } else {
            dec_target(u, pair, false)
        },
        Step::Continue,
    )) by {
        reveal(execute_low);
    }
    let v = read_target(u, pair);
    let w = if op % 16 == 3 {
        wrap16(v + 1)
    } else {
        wrap16(v - 1)
    };
    lemma_pair_step(u, code, w);
    assert(v == pair_by_code(s, code));
    lemma_wrap_pair(v);
}

proof fn lemma_wrap_pair(v: u16)
    ensures
        wrap16(v + 1) as int == (v + 1) % 0x10000,
        wrap16(v - 1) as int == (v + 0xFFFF) % 0x10000,
{
    lemma_wrap16(v + 1);
    lemma_wrap16(v - 1);
}

/// `ADD HL, rr` (0x09, 0x19, 0x29, 0x39) leaves the sum of HL and the pair that bits 4 and 5 name,
/// modulo 2^16, in HL; N is cleared, H and C are the carries out of bits 11 and 15, and Z and
/// the low nibble of F are kept. Nothing else changes but PC and the recorded opcode.
#[verifier::spinoff_prover]
pub proof fn law_step_add_hl(s: CpuState)
    requires
        s.mem.len() == MEMORY_SIZE,
        s.backed(s.reg.pc as int),
        s.read(s.reg.pc) < 0x40,
        s.read(s.reg.pc) % 16 == 9,
    ensures
        !faults(s),
        step(s).1 == Step::Continue,
        ({
            let hl = s.reg.h * 256 + s.reg.l;
            let v = pair_by_code(s, s.read(s.reg.pc) / 16);
            let t = step(s).0;
            &&& t == put_pair_by_code(with_flags(advanced(s, 1), t.reg.f), 2, (hl + v) % 0x10000)
            &&& t.reg.flag(Flag::Z) == s.reg.flag(Flag::Z)
            &&& !t.reg.flag(Flag::N)
            &&& t.reg.flag(Flag::H) == (hl % 4096 + v % 4096 >= 4096)
            &&& t.reg.flag(Flag::C) == (hl + v > 0xFFFF)
            &&& t.reg.f & 0x0f == s.reg.f & 0x0f
        }),
{
    broadcast use lemma_flag_of_put, lemma_put_flag_low_nibble;

    lemma_step_unfold(s);
    let op = s.read(s.reg.pc);
    let u = CpuState { opcode: op, ..fetch(s).0 };
    let code = op / 16;
    let pair = if code == 0 {
        RegisterTarget::BC
    } else if code == 1 {
        RegisterTarget::DE
    } else if code == 2 {
        RegisterTarget::HL
    } else {
        RegisterTarget::SP
    };
    assert(execute_low(u, op) == (add_hl(u, pair), Step::Continue)) by {
        reveal(execute_low);
    }
    lemma_pair_step(u, code, 0);
    lemma_pair_step(u, 2, wrap16(u.reg.hl() + read_target(u, pair)));
}

/// The rotations of A (0x07 `RLCA`, 0x0F `RRCA`, 0x17 `RLA`, 0x1F `RRA`): left or right by one
/// bit, the bit that leaves going into C and coming back at the other end (`RLCA`, `RRCA`) or
/// the old C coming in (`RLA`, `RRA`); Z, N and H are cleared and only A and F change.
#[verifier::spinoff_prover]
pub proof fn law_step_rotate_a(s: CpuState)
    requires
        s.mem.len() == MEMORY_SIZE,
        s.backed(s.reg.pc as int),
        s.read(s.reg.pc) == 0x07 || s.read(s.reg.pc) == 0x0F || s.read(s.reg.pc) == 0x17
            || s.read(s.reg.pc) == 0x1F,
    ensures
        !faults(s),
        step(s).1 == Step::Continue,
        ({
            let op = s.read(s.reg.pc);
            let a = s.reg.a;
            let c: int = if s.reg.flag(Flag::C) {
                1
            } else {
                0
            };
            let t = step(s).0;
            &&& t.reg.a == if op == 0x07 {
                (a * 2 + a / 128) % 256
            } else if op == 0x0F {
                a / 2 + (a % 2) * 128
            } else if op == 0x17 {
                (a * 2 + c) % 256
            } else {
                a / 2 + c * 128
            }
            &&& t.reg.flag(Flag::C) == if op == 0x07 || op == 0x17 {
                a >= 128
            } else {
                a % 2 == 1
            }
            &&& !t.reg.flag(Flag::Z)
            &&& !t.reg.flag(Flag::N)
            &&& !t.reg.flag(Flag::H)
            &&& only_a_and_flags_change(s, t, 1)
        }),
{
    broadcast use lemma_flag_of_put, lemma_put_flag_low_nibble;

    lemma_step_unfold(s);
    let op = s.read(s.reg.pc);
    let u = CpuState { opcode: op, ..fetch(s).0 };
    assert(execute_low(u, op) == (
        if op == 0x07 {
            rlca(u)
        } else if op == 0x0F {
            rrca(u)
        } else if op == 0x17 {
            rla(u)
        } else {
            rra(u)
        },
        Step::Continue,
    )) by {
        reveal(execute_low);
    }
}

proof fn lemma_not_byte(a: u8)
    by (bit_vector)
    ensures
        !a == 255 - a,
{
}

/// `CPL` (0x2F) replaces A by its bitwise complement, 255 - A, and sets N and H; `SCF` (0x37) sets
/// C and clears N and H; `CCF` (0x3F) inverts C. Every other flag, the low nibble of F, and all
/// else but PC and the recorded opcode are kept.
#[verifier::spinoff_prover]
pub proof fn law_step_flag_operations(s: CpuState)
    requires
        s.mem.len() == MEMORY_SIZE,
        s.backed(s.reg.pc as int),
        s.read(s.reg.pc) == 0x2F || s.read(s.reg.pc) == 0x37 || s.read(s.reg.pc) == 0x3F,
    ensures
        !faults(s),
        step(s).1 == Step::Continue,
        ({
            let op = s.read(s.reg.pc);
            let t = step(s).0;
            &&& t.reg.a == if op == 0x2F {
                255 - s.reg.a
            } else {
                s.reg.a as int
            }
            &&& t.reg.flag(Flag::Z) == s.reg.flag(Flag::Z)
            &&& t.reg.flag(Flag::N) == if op == 0x2F {
                true
            } else if op == 0x37 {
                false
            } else {
                s.reg.flag(Flag::N)
            }
            &&& t.reg.flag(Flag::H) == if op == 0x2F {
                true
            } else if op == 0x37 {
                false
            } else {
                s.reg.flag(Flag::H)
            }
            &&& t.reg.flag(Flag::C) == if op == 0x2F {
                s.reg.flag(Flag::C)
            } else if op == 0x37 {
                true
            } else {
                !s.reg.flag(Flag::C)
            }
            &&& only_a_and_flags_change(s, t, 1)
        }),
{
    broadcast use lemma_flag_of_put, lemma_put_flag_low_nibble;

    lemma_step_unfold(s);
    let op = s.read(s.reg.pc);
    let u = CpuState { opcode: op, ..fetch(s).0 };
    let c = u.reg.flag(Flag::C);
    assert(execute_low(u, op) == (
        if op == 0x2F {
            u.with_reg(u.reg.with_a(!u.reg.a).with_flag(Flag::N, true).with_flag(Flag::H, true))
        } else if op == 0x37 {
            u.with_reg(
                u.reg.with_flag(Flag::N, false).with_flag(Flag::H, false).with_flag(Flag::C, true),
            )
        } else {
            u.with_reg(u.reg.with_flag(Flag::C, !c))
        },
        Step::Continue,
    )) by {
        reveal(execute_low);
    }
    lemma_not_byte(s.reg.a);
}

/// `NOP` (0x00) and `STOP` (0x10) change nothing but PC and the recorded opcode; `STOP` ends the
/// run. `DI` (0xF3) and `EI` (0xFB) clear and set the interrupt enable and change nothing else
/// but PC and the recorded opcode.
#[verifier::spinoff_prover]
pub proof fn law_step_control(s: CpuState)
    requires
        s.mem.len() == MEMORY_SIZE,
        s.backed(s.reg.pc as int),
        s.read(s.reg.pc) == 0x00 || s.read(s.reg.pc) == 0x10 || s.read(s.reg.pc) == 0xF3
            || s.read(s.reg.pc) == 0xFB,
    ensures
        !faults(s),
        step(s).1 == if s.read(s.reg.pc) == 0x10 {
            Step::Stop
        } else {
            Step::Continue
        },
        step(s).0 == if s.read(s.reg.pc) == 0xF3 {
            CpuState { ime: false, ..advanced(s, 1) }
        } else if s.read(s.reg.pc) == 0xFB {
            CpuState { ime: true, ..advanced(s, 1) }
        } else {
            advanced(s, 1)
        },
{
    lemma_step_unfold(s);
    let op = s.read(s.reg.pc);
    let u = CpuState { opcode: op, ..fetch(s).0 };
    assert(execute_low(u, 0x00) == (u, Step::Continue)) by {
        reveal(execute_low);
    }
    assert(execute_low(u, 0x10) == (u, Step::Stop)) by {
        reveal(execute_low);
    }
    assert(execute_high(u, 0xF3) == (CpuState { ime: false, ..u }, Step::Continue)) by {
        reveal(execute_high);
    }
    assert(execute_high(u, 0xFB) == (CpuState { ime: true, ..u }, Step::Continue)) by {
        reveal(execute_high);
    }
}

proof fn lemma_step_daa(t: CpuState)
    requires
        t.mem.len() == MEMORY_SIZE,
        t.backed(t.reg.pc as int),
        t.read(t.reg.pc) == 0x27,
    ensures
        !faults(t),
        step(t) == (daa(advanced(t, 1)), Step::Continue),
{
    lemma_step_at(t, 0x27);
    let u = CpuState { opcode: 0x27, ..fetch(t).0 };
    assert(u == advanced(t, 1));
    assert(execute_low(u, 0x27) == (daa(u), Step::Continue)) by {
        reveal(execute_low);
    }
}

/// `SUB r` (0x90 to 0x97) of packed-BCD numbers followed by `DAA` (0x27) leaves their decimal
/// difference modulo 100 in A, in packed BCD, with C set exactly when the operand was the larger,
/// Z when A is zero and H clear; no other register but PC, and no memory, changes.
#[verifier::spinoff_prover]
pub proof fn law_step_bcd_subtract(s: CpuState)
    requires
        alu_instruction(s, 2, 0),
        s.backed(s.reg.pc + 1),
        s.read((s.reg.pc + 1) as u16) == 0x27,
        bcd_ok(s.reg.a),
        bcd_ok(alu_operand(s)),
    ensures
        !faults(s),
        step(s).1 == Step::Continue,
        !faults(step(s).0),
        step(step(s).0).1 == Step::Continue,
        ({
            let r = step(step(s).0).0;
            let x = bcd_value(s.reg.a);
            let y = bcd_value(alu_operand(s));
            &&& bcd_ok(r.reg.a)
            &&& bcd_value(r.reg.a) == (x - y) % 100
            &&& r.reg.flag(Flag::C) == (x < y)
            &&& r.reg.flag(Flag::Z) == (r.reg.a == 0)
            &&& !r.reg.flag(Flag::H)
            &&& r.reg == (RegisterState {
                a: r.reg.a,
                f: r.reg.f,
                pc: (s.reg.pc + 2) as u16,
                ..s.reg
            })
            &&& r.mem == s.mem
        }),
{
    law_step_subtract(s);
    let t = step(s).0;
    assert(t.mem == s.mem && t.reg.pc == s.reg.pc + 1);
    lemma_step_daa(t);
    let x = s.reg.a;
    let y = alu_operand(s);
    lemma_daa_after_sub_flags(advanced(t, 1), x, y);
}

/// `ADD r` (0x80 to 0x87) of packed-BCD numbers followed by `DAA` (0x27) leaves their decimal sum
/// modulo 100 in A, in packed BCD, with C set exactly when the sum reached 100, Z when A is zero
/// and H clear; no other register but PC, and no memory, changes.
#[verifier::spinoff_prover]
pub proof fn law_step_bcd_add(s: CpuState)
    requires
        alu_instruction(s, 0, 0),
        s.backed(s.reg.pc + 1),
        s.read((s.reg.pc + 1) as u16) == 0x27,
        bcd_ok(s.reg.a),
        bcd_ok(alu_operand(s)),
    ensures
        !faults(s),
        step(s).1 == Step::Continue,
        !faults(step(s).0),
        step(step(s).0).1 == Step::Continue,
        ({
            let r = step(step(s).0).0;
            let x = bcd_value(s.reg.a);
            let y = bcd_value(alu_operand(s));
            &&& bcd_ok(r.reg.a)
            &&& bcd_value(r.reg.a) == (x + y) % 100
            &&& r.reg.flag(Flag::C) == (x + y >= 100)
            &&& r.reg.flag(Flag::Z) == (r.reg.a == 0)
            &&& !r.reg.flag(Flag::H)
            &&& r.reg == (RegisterState {
                a: r.reg.a,
                f: r.reg.f,
                pc: (s.reg.pc + 2) as u16,
                ..s.reg
            })
            &&& r.mem == s.mem
        }),
{
    law_step_add(s);
    let t = step(s).0;
    assert(t.mem == s.mem && t.reg.pc == s.reg.pc + 1);
    lemma_step_daa(t);
    let x = s.reg.a;
    let y = alu_operand(s);
    lemma_daa_after_add_flags(advanced(t, 1), x, y);
}

/// `ADD SP, n` (0xE8) leaves SP plus the byte after the opcode (read unsigned), modulo 2^16, in
/// SP, and `LD HL, SP + n` (0xF8) leaves it in HL with SP kept; both clear Z and N, set H and C
/// from the carries out of bits 3 and 7 of SP plus that byte, and keep the low nibble of F.
#[verifier::spinoff_prover]
pub proof fn law_step_stack_offset(s: CpuState)
    requires
        s.mem.len() == MEMORY_SIZE,
        s.backed(s.reg.pc + 1),
        s.read(s.reg.pc) == 0xE8 || s.read(s.reg.pc) == 0xF8,
    ensures
        !faults(s),
        step(s).1 == Step::Continue,
        ({
            let op = s.read(s.reg.pc);
            let n = s.read((s.reg.pc + 1) as u16);
            let sum = (s.reg.sp + n) % 0x10000;
            let t = step(s).0;
            &&& t == if op == 0xE8 {
                put_pair_by_code(with_flags(advanced(s, 2), t.reg.f), 3, sum)
            } else {
                put_pair_by_code(with_flags(advanced(s, 2), t.reg.f), 2, sum)
            }
            &&& !t.reg.flag(Flag::Z)
            &&& !t.reg.flag(Flag::N)
            &&& t.reg.flag(Flag::H) == (s.reg.sp % 16 + n % 16 >= 16)
            &&& t.reg.flag(Flag::C) == (s.reg.sp % 256 + n >= 256)
            &&& t.reg.f & 0x0f == s.reg.f & 0x0f
        }),
{
    broadcast use lemma_flag_of_put, lemma_put_flag_low_nibble;

    let op = s.read(s.reg.pc);
    lemma_step_at(s, op);
    let u = CpuState { opcode: op, ..fetch(s).0 };
    let (v, n) = fetch(u);
    assert(v == advanced(s, 2));
    assert(execute_high(u, op) == (
        if op == 0xE8 {
            v.with_reg(sp_plus_immediate_flags(v, n).with_sp(wrap16(v.reg.sp + n)))
        } else {
            v.with_reg(sp_plus_immediate_flags(v, n).with_hl(wrap16(v.reg.sp + n)))
        },
        Step::Continue,
    )) by {
        reveal(execute_high);
    }
}

/// `BIT 7, H` (0xCB 0x7C) sets Z exactly when bit 7 of H is clear, clears N and H, keeps C and the
/// low nibble of F, moves PC past both bytes and records 0x7C as the opcode; every other
/// prefixed opcode is reported as unknown, with PC past both bytes and that opcode recorded.
#[verifier::spinoff_prover]
pub proof fn law_step_prefixed(s: CpuState)
    requires
        s.mem.len() == MEMORY_SIZE,
        s.backed(s.reg.pc + 1),
        s.read(s.reg.pc) == 0xCB,
    ensures
        !faults(s),
        ({
            let op2 = s.read((s.reg.pc + 1) as u16);
            let t = step(s).0;
            let moved = CpuState { opcode: op2, ..advanced(s, 2) };
            if op2 == 0x7C {
                &&& step(s).1 == Step::Continue
                &&& t == with_flags(moved, t.reg.f)
                &&& t.reg.flag(Flag::Z) == (s.reg.h < 128)
                &&& !t.reg.flag(Flag::N)
                &&& !t.reg.flag(Flag::H)
                &&& t.reg.flag(Flag::C) == s.reg.flag(Flag::C)
                &&& t.reg.f & 0x0f == s.reg.f & 0x0f
            } else {
                step(s) == (moved, Step::UnknownPrefixedOpcode(op2))
            }
        }),
{
    broadcast use lemma_flag_of_put, lemma_put_flag_low_nibble;

    lemma_step_at(s, 0xCB);
    let u = CpuState { opcode: 0xCB, ..fetch(s).0 };
    let (u0, op2) = fetch(u);
    let w = CpuState { opcode: op2, ..u0 };
    assert(w == CpuState { opcode: op2, ..advanced(s, 2) });
    assert(execute_high(u, 0xCB) == if op2 == 0x7c {
        (
            w.with_reg(
                w.reg.with_flag(Flag::Z, w.reg.h < 128).with_flag(Flag::N, false).with_flag(
                    Flag::H,
                    false,
                ),
            ),
            Step::Continue,
        )
    } else {
        (w, Step::UnknownPrefixedOpcode(op2))
    }) by {
        reveal(execute_high);
    }
}

/// Whether no instruction is assigned to the opcode: the rest of `0xC0` to `0xFF` once the
/// returns, jumps, stack operations, immediate operations on A, restarts, `LDH`, `ADD SP`,
/// `LD HL, SP + n`, `DI`, `EI`, the prefix 0xCB and 0xC4 are taken away.
pub open spec fn unassigned_opcode(op: u8) -> bool {
    op == 0xC9 || op == 0xCC || op == 0xCD || op == 0xCE || op == 0xD3 || op == 0xD4 || op == 0xD9
        || op == 0xDB || op == 0xDC || op == 0xDD || op == 0xDE || op == 0xE2 || op == 0xE3 || op
        == 0xE4 || op == 0xE9 || op == 0xEA || op == 0xEB || op == 0xEC || op == 0xED || op == 0xEE
        || op == 0xF2 || op == 0xF4 || op == 0xF9 || op == 0xFA || op == 0xFC || op == 0xFD
}

/// An unassigned opcode is reported as unknown, and `HALT` (0x76) and 0xC4 as not implemented;
/// in each case only PC (past the opcode) and the recorded opcode change.
#[verifier::spinoff_prover]
pub proof fn law_step_unknown(s: CpuState)
    requires
        s.mem.len() == MEMORY_SIZE,
        s.backed(s.reg.pc as int),
        unassigned_opcode(s.read(s.reg.pc)) || s.read(s.reg.pc) == 0x76 || s.read(s.reg.pc)
            == 0xC4,
    ensures
        !faults(s),
        step(s) == (
            advanced(s, 1),
            if unassigned_opcode(s.read(s.reg.pc)) {
                Step::UnknownOpcode(s.read(s.reg.pc))
            } else {
                Step::Unfinished(s.read(s.reg.pc))
            },
        ),
{
    lemma_step_unfold(s);
    let op = s.read(s.reg.pc);
    let u = CpuState { opcode: op, ..fetch(s).0 };
    assert(u == advanced(s, 1));
    if op != 0x76 {
        assert(execute_high(u, op) == (
            u,
            if op == 0xC4 {
                Step::Unfinished(op)
            } else {
                Step::UnknownOpcode(op)
            },
        )) by {
            reveal(execute_high);
        }
    }
}

} // verus!
