use vstd::prelude::*;
use crate::bits::{
    lemma_bcd_adjust, lemma_bcd_adjust_sub, lemma_low_nibble, lemma_opcode_fields,
    lemma_word_parts, lemma_wrap8,
};
use crate::cpu::{target_of, Flag, RegisterTarget, Step};
use crate::laws::{bcd_ok, bcd_value, law_flag_write_keeps_others, lemma_flag_of_put};
use crate::memory::MEMORY_SIZE;
use crate::semantics::{
    alu, alu_immediate, daa, daa_high, daa_low, dec_target, execute, execute_high, execute_low,
    faults, fetch, inc_target, jump_if, load, load_immediate, load_pair_immediate, low, op_ok,
    operand8, pop_af, pop_pair, pop_word, push_af, push_word, put_flag, relative_jump, return_if,
    rst, step, store_sp, sub_a, word, wrap16, CpuState, RegisterState,
};

verus! {

/// `SUB` of two packed-BCD numbers followed by `DAA` leaves their decimal difference modulo 100
/// in A, in packed BCD, with C set exactly when the second number was the larger, N still set
/// and Z when A is zero.
pub proof fn law_daa_after_bcd_sub(s: CpuState, y: u8)
    requires
        bcd_ok(s.reg.a),
        bcd_ok(y),
    ensures
        bcd_ok(daa(sub_a(s, RegisterTarget::Value(y as u16), false)).reg.a),
        bcd_value(daa(sub_a(s, RegisterTarget::Value(y as u16), false)).reg.a) == (bcd_value(
            s.reg.a,
        ) - bcd_value(y)) % 100,
        daa(sub_a(s, RegisterTarget::Value(y as u16), false)).reg.flag(Flag::C) == (bcd_value(
            s.reg.a,
        ) < bcd_value(y)),
        daa(sub_a(s, RegisterTarget::Value(y as u16), false)).reg.flag(Flag::N),
        daa(sub_a(s, RegisterTarget::Value(y as u16), false)).reg.flag(Flag::Z) == (daa(
            sub_a(s, RegisterTarget::Value(y as u16), false),
        ).reg.a == 0),
{
    broadcast use lemma_flag_of_put;

    let t = sub_a(s, RegisterTarget::Value(y as u16), false);
    assert(operand8(s, RegisterTarget::Value(y as u16)) == y);
    lemma_wrap8(s.reg.a - y);
    lemma_daa_after_sub_flags(t, s.reg.a, y);
}

/// `DAA` on the A and flags that subtracting packed-BCD `y` from packed-BCD `x` leaves gives their
/// decimal difference modulo 100, with C set exactly when `y` is the larger.
pub(crate) proof fn lemma_daa_after_sub_flags(t: CpuState, x: u8, y: u8)
    requires
        bcd_ok(x),
        bcd_ok(y),
        t.reg.a as int == (x - y) % 256,
        t.reg.flag(Flag::N),
        t.reg.flag(Flag::H) == (x % 16 < y % 16),
        t.reg.flag(Flag::C) == (x < y),
    ensures
        bcd_ok(daa(t).reg.a),
        bcd_value(daa(t).reg.a) == (bcd_value(x) - bcd_value(y)) % 100,
        daa(t).reg.flag(Flag::C) == (bcd_value(x) < bcd_value(y)),
        daa(t).reg.flag(Flag::N),
        daa(t).reg.flag(Flag::Z) == (daa(t).reg.a == 0),
        !daa(t).reg.flag(Flag::H),
        daa(t).mem == t.mem,
        daa(t).reg == (RegisterState { a: daa(t).reg.a, f: daa(t).reg.f, ..t.reg }),
{
    broadcast use lemma_flag_of_put;

    let a = t.reg.a;
    lemma_wrap8(x - y);
    let lo = t.reg.flag(Flag::H);
    let hi = t.reg.flag(Flag::C);
    assert(daa_low(t) == if lo { 6int } else { 0int });
    assert(daa_high(t) == if hi { 0x60int } else { 0int });
    let adjust = daa_low(t) + daa_high(t);
    lemma_wrap8(a - adjust);
    let r = daa(t).reg.a;
    lemma_low_nibble(x);
    lemma_low_nibble(y);
    lemma_low_nibble(a);
    lemma_low_nibble(r);
    lemma_bcd_adjust_sub(x, y, a, r, lo, hi);
    lemma_mod_hundred(bcd_value(x) - bcd_value(y), hi);
}

/// `DAA` on the A and flags that adding packed-BCD `x` and `y` leaves gives their decimal sum
/// modulo 100, with C set exactly when the sum reached 100.
pub(crate) proof fn lemma_daa_after_add_flags(t: CpuState, x: u8, y: u8)
    requires
        bcd_ok(x),
        bcd_ok(y),
        t.reg.a as int == (x + y) % 256,
        !t.reg.flag(Flag::N),
        t.reg.flag(Flag::H) == (x % 16 + y % 16 > 15),
        t.reg.flag(Flag::C) == (x + y > 255),
    ensures
        bcd_ok(daa(t).reg.a),
        bcd_value(daa(t).reg.a) == (bcd_value(x) + bcd_value(y)) % 100,
        daa(t).reg.flag(Flag::C) == (bcd_value(x) + bcd_value(y) >= 100),
        !daa(t).reg.flag(Flag::N),
        daa(t).reg.flag(Flag::Z) == (daa(t).reg.a == 0),
        !daa(t).reg.flag(Flag::H),
        daa(t).mem == t.mem,
        daa(t).reg == (RegisterState { a: daa(t).reg.a, f: daa(t).reg.f, ..t.reg }),
{
    broadcast use lemma_flag_of_put;

    let a = t.reg.a;
    lemma_wrap8(x + y);
    let lo = t.reg.flag(Flag::H) || (!t.reg.flag(Flag::N) && a % 16 > 9);
    let hi = t.reg.flag(Flag::C) || (!t.reg.flag(Flag::N) && a > 0x99);
    assert(daa_low(t) == if lo { 6int } else { 0int });
    assert(daa_high(t) == if hi { 0x60int } else { 0int });
    let adjust = daa_low(t) + daa_high(t);
    lemma_wrap8(a + adjust);
    let r = daa(t).reg.a;
    lemma_low_nibble(x);
    lemma_low_nibble(y);
    lemma_low_nibble(a);
    lemma_low_nibble(r);
    lemma_bcd_adjust(x, y, a, r, lo, hi);
}

proof fn lemma_mod_hundred(d: int, negative: bool)
    requires
        -100 < d < 100,
        negative == (d < 0),
    ensures
        d % 100 == if negative {
            d + 100
        } else {
            d
        },
{
}

/// Fetching at a backed PC moves PC by one without wrapping; `step` executes the fetched
/// opcode, and faults exactly when that opcode cannot run.
#[verifier::spinoff_prover]
pub(crate) proof fn lemma_step_unfold(s: CpuState)
    requires
        s.mem.len() == MEMORY_SIZE,
        s.backed(s.reg.pc as int),
    ensures
        fetch(s).0 == s.with_reg(RegisterState { pc: (s.reg.pc + 1) as u16, ..s.reg }),
        fetch(s).1 == s.read(s.reg.pc),
        step(s) == execute(CpuState { opcode: s.read(s.reg.pc), ..fetch(s).0 }, s.read(s.reg.pc)),
        faults(s) == !op_ok(fetch(s).0, s.read(s.reg.pc)),
{
    reveal(faults);
    reveal(step);
}

/// `lemma_step_unfold` for a known opcode.
#[verifier::spinoff_prover]
pub(crate) proof fn lemma_step_at(s: CpuState, op: u8)
    requires
        s.mem.len() == MEMORY_SIZE,
        s.backed(s.reg.pc as int),
        s.read(s.reg.pc) == op,
    ensures
        fetch(s).0 == s.with_reg(RegisterState { pc: (s.reg.pc + 1) as u16, ..s.reg }),
        step(s) == execute(CpuState { opcode: op, ..fetch(s).0 }, op),
        faults(s) == !op_ok(fetch(s).0, op),
{
    reveal(faults);
    reveal(step);
}

/// `s` with PC moved past an instruction of `len` bytes and the opcode at PC recorded.
pub open spec fn advanced(s: CpuState, len: int) -> CpuState {
    CpuState {
        reg: RegisterState { pc: (s.reg.pc + len) as u16, ..s.reg },
        opcode: s.read(s.reg.pc),
        ..s
    }
}

/// Whether the relative jump with opcode `op` is taken under the flags of `r`: `JR e` (0x18)
/// always, `JR NZ` (0x20) when Z is clear, `JR Z` (0x28) when it is set, `JR NC` (0x30) when C
/// is clear, `JR C` (0x38) when it is set.
pub open spec fn relative_jump_taken(op: u8, r: RegisterState) -> bool {
    op == 0x18 || (op == 0x20 && !r.flag(Flag::Z)) || (op == 0x28 && r.flag(Flag::Z)) || (op
        == 0x30 && !r.flag(Flag::C)) || (op == 0x38 && r.flag(Flag::C))
}

/// A relative jump takes two bytes: when its condition holds, PC moves from the end of the
/// instruction by the second byte read as a two's-complement number (modulo 2^16), and
/// otherwise to the end of the instruction; nothing else changes but the recorded opcode.
#[verifier::spinoff_prover]
pub proof fn law_step_relative_jump(s: CpuState)
    requires
        s.mem.len() == MEMORY_SIZE,
        s.backed(s.reg.pc + 1),
        s.read(s.reg.pc) == 0x18 || s.read(s.reg.pc) == 0x20 || s.read(s.reg.pc) == 0x28
            || s.read(s.reg.pc) == 0x30 || s.read(s.reg.pc) == 0x38,
    ensures
        !faults(s),
        step(s).1 == Step::Continue,
        step(s).0 == ({
            let e = s.read((s.reg.pc + 1) as u16);
            let displacement = if e < 128 {
                e as int
            } else {
                e - 256
            };
            let target = ((s.reg.pc + 2 + displacement) % 0x10000) as u16;
            let pc = if relative_jump_taken(s.read(s.reg.pc), s.reg) {
                target
            } else {
                (s.reg.pc + 2) as u16
            };
            advanced(s, 0).with_reg(RegisterState { pc, ..s.reg })
        }),
{
    lemma_step_unfold(s);
    let op = s.read(s.reg.pc);
    let u = CpuState { opcode: op, ..fetch(s).0 };
    assert(fetch(u).1 == s.read((s.reg.pc + 1) as u16));
    assert(execute_low(u, op) == (relative_jump(u, relative_jump_taken(op, u.reg)), Step::Continue))
        by {
        reveal(execute_low);
    }
}

/// Whether the absolute jump with opcode `op` is taken under the flags of `r`: `JP nn` (0xC3)
/// always, `JP NZ` (0xC2) when Z is clear, `JP Z` (0xCA) when it is set, `JP NC` (0xD2) when C
/// is clear, `JP C` (0xDA) when it is set.
pub open spec fn absolute_jump_taken(op: u8, r: RegisterState) -> bool {
    op == 0xC3 || (op == 0xC2 && !r.flag(Flag::Z)) || (op == 0xCA && r.flag(Flag::Z)) || (op
        == 0xD2 && !r.flag(Flag::C)) || (op == 0xDA && r.flag(Flag::C))
}

/// An absolute jump whose condition holds sets PC to the little-endian address in the two bytes
/// after the opcode; one whose condition fails reads no address and moves PC past the opcode
/// alone. Nothing else changes but the recorded opcode.
#[verifier::spinoff_prover]
pub proof fn law_step_absolute_jump(s: CpuState)
    requires
        s.mem.len() == MEMORY_SIZE,
        s.backed(s.reg.pc as int),
        s.read(s.reg.pc) == 0xC3 || s.read(s.reg.pc) == 0xC2 || s.read(s.reg.pc) == 0xCA
            || s.read(s.reg.pc) == 0xD2 || s.read(s.reg.pc) == 0xDA,
        absolute_jump_taken(s.read(s.reg.pc), s.reg) ==> s.backed(s.reg.pc + 2),
    ensures
        !faults(s),
        step(s).1 == Step::Continue,
        step(s).0 == ({
            let hi = s.read((s.reg.pc + 2) as u16);
            let lo = s.read((s.reg.pc + 1) as u16);
            let target = (hi * 256 + lo) as u16;
            let pc = if absolute_jump_taken(s.read(s.reg.pc), s.reg) {
                target
            } else {
                (s.reg.pc + 1) as u16
            };
            advanced(s, 0).with_reg(RegisterState { pc, ..s.reg })
        }),
{
    lemma_step_unfold(s);
    let op = s.read(s.reg.pc);
    let u = CpuState { opcode: op, ..fetch(s).0 };
    assert(execute_high(u, op) == (jump_if(u, absolute_jump_taken(op, u.reg)), Step::Continue))
        by {
        reveal(execute_high);
    }
}

/// The two bytes that `PUSH` stores, the first one higher in memory: B and C for 0xC5, D and E
/// for 0xD5, H and L for 0xE5, A and F for 0xF5.
pub open spec fn pushed_bytes(op: u8, r: RegisterState) -> (u8, u8) {
    if op == 0xC5 {
        (r.b, r.c)
    } else if op == 0xD5 {
        (r.d, r.e)
    } else if op == 0xE5 {
        (r.h, r.l)
    } else {
        (r.a, r.f)
    }
}

/// `PUSH` (0xC5, 0xD5, 0xE5, 0xF5) stores the first byte of its pair at SP - 1 and the second at
/// SP - 2, lowers SP by two and changes nothing else but PC and the recorded opcode.
#[verifier::spinoff_prover]
#[verifier::rlimit(40)]
pub proof fn law_step_push(s: CpuState)
    requires
        s.mem.len() == MEMORY_SIZE,
        s.backed(s.reg.pc as int),
        s.read(s.reg.pc) == 0xC5 || s.read(s.reg.pc) == 0xD5 || s.read(s.reg.pc) == 0xE5
            || s.read(s.reg.pc) == 0xF5,
        s.reg.sp >= 2,
        s.backed(s.reg.sp - 1),
    ensures
        !faults(s),
        step(s).1 == Step::Continue,
        step(s).0 == ({
            let (first, second) = pushed_bytes(s.read(s.reg.pc), s.reg);
            CpuState {
                reg: RegisterState {
                    sp: (s.reg.sp - 2) as u16,
                    pc: (s.reg.pc + 1) as u16,
                    ..s.reg
                },
                mem: s.mem.update(s.reg.sp - 1, first).update(s.reg.sp - 2, second),
                opcode: s.read(s.reg.pc),
                ..s
            }
        }),
{
    lemma_step_unfold(s);
    let op = s.read(s.reg.pc);
    let u = CpuState { opcode: op, ..fetch(s).0 };
    assert(op_ok(fetch(s).0, op));
    if op == 0xC5 {
        lemma_word_parts(s.reg.b, s.reg.c);
        assert(execute_high(u, op) == (push_word(u, u.reg.bc()), Step::Continue)) by {
            reveal(execute_high);
        }
    } else if op == 0xD5 {
        lemma_word_parts(s.reg.d, s.reg.e);
        assert(execute_high(u, op) == (push_word(u, u.reg.de()), Step::Continue)) by {
            reveal(execute_high);
        }
    } else if op == 0xE5 {
        lemma_word_parts(s.reg.h, s.reg.l);
        assert(execute_high(u, op) == (push_word(u, u.reg.hl()), Step::Continue)) by {
            reveal(execute_high);
        }
    } else {
        assert(execute_high(u, op) == (push_af(u), Step::Continue)) by {
            reveal(execute_high);
        }
    }
}

/// The registers after `POP` (0xC1, 0xD1, 0xE1, 0xF1) took `lo` from SP and `hi` from SP + 1:
/// C and B, E and D, L and H, or A and F in that order.
pub open spec fn popped_registers(op: u8, r: RegisterState, lo: u8, hi: u8) -> RegisterState {
    if op == 0xC1 {
        RegisterState { b: hi, c: lo, ..r }
    } else if op == 0xD1 {
        RegisterState { d: hi, e: lo, ..r }
    } else if op == 0xE1 {
        RegisterState { h: hi, l: lo, ..r }
    } else {
        RegisterState { a: lo, f: hi, ..r }
    }
}

/// `POP` (0xC1, 0xD1, 0xE1, 0xF1) loads its pair from the bytes at SP and SP + 1, raises SP by
/// two, and changes no memory and no other register but PC.
#[verifier::spinoff_prover]
#[verifier::rlimit(60)]
pub proof fn law_step_pop(s: CpuState)
    requires
        s.mem.len() == MEMORY_SIZE,
        s.backed(s.reg.pc as int),
        s.read(s.reg.pc) == 0xC1 || s.read(s.reg.pc) == 0xD1 || s.read(s.reg.pc) == 0xE1
            || s.read(s.reg.pc) == 0xF1,
        s.reg.sp + 2 <= 0xFFFF,
        s.backed(s.reg.sp + 1),
    ensures
        !faults(s),
        step(s).1 == Step::Continue,
        step(s).0 == ({
            let r = popped_registers(
                s.read(s.reg.pc),
                s.reg,
                s.read(s.reg.sp),
                s.read((s.reg.sp + 1) as u16),
            );
            advanced(s, 0).with_reg(
                RegisterState { sp: (s.reg.sp + 2) as u16, pc: (s.reg.pc + 1) as u16, ..r },
            )
        }),
{
    lemma_step_unfold(s);
    let op = s.read(s.reg.pc);
    let u = CpuState { opcode: op, ..fetch(s).0 };
    let lo = s.read(s.reg.sp);
    let hi = s.read((s.reg.sp + 1) as u16);
    lemma_word_parts(hi, lo);
    assert(op_ok(fetch(s).0, op));
    assert(pop_word(u).1 == word(hi, lo));
    if op == 0xC1 {
        assert(execute_high(u, op) == (pop_pair(u, RegisterTarget::BC), Step::Continue)) by {
            reveal(execute_high);
        }
    } else if op == 0xD1 {
        assert(execute_high(u, op) == (pop_pair(u, RegisterTarget::DE), Step::Continue)) by {
            reveal(execute_high);
        }
    } else if op == 0xE1 {
        assert(execute_high(u, op) == (pop_pair(u, RegisterTarget::HL), Step::Continue)) by {
            reveal(execute_high);
        }
    } else {
        assert(execute_high(u, op) == (pop_af(u), Step::Continue)) by {
            reveal(execute_high);
        }
    }
}

/// `RST` (0xC7, 0xCF, ..., 0xFF) pushes the address of the next instruction, high byte at SP - 1
/// and low byte at SP - 2, lowers SP by two and jumps to the opcode less 0xC7 (0x00, 0x08, ...,
/// 0x38).
#[verifier::spinoff_prover]
pub proof fn law_step_restart(s: CpuState)
    requires
        s.mem.len() == MEMORY_SIZE,
        s.backed(s.reg.pc as int),
        s.read(s.reg.pc) >= 0xC7,
        s.read(s.reg.pc) % 8 == 7,
        s.reg.sp >= 2,
        s.backed(s.reg.sp - 1),
    ensures
        !faults(s),
        step(s).1 == Step::Continue,
        step(s).0 == ({
            let ret = s.reg.pc + 1;
            CpuState {
                reg: RegisterState {
                    sp: (s.reg.sp - 2) as u16,
                    pc: (s.read(s.reg.pc) - 0xC7) as u16,
                    ..s.reg
                },
                mem: s.mem.update(s.reg.sp - 1, (ret / 256) as u8).update(
                    s.reg.sp - 2,
                    (ret % 256) as u8,
                ),
                opcode: s.read(s.reg.pc),
                ..s
            }
        }),
{
    lemma_step_unfold(s);
    let op = s.read(s.reg.pc);
    let u = CpuState { opcode: op, ..fetch(s).0 };
    assert(op == 0xC7 || op == 0xCF || op == 0xD7 || op == 0xDF || op == 0xE7 || op == 0xEF || op
        == 0xF7 || op == 0xFF);
    assert(execute_high(u, op) == (rst(u, (op - 0xC7) as u16), Step::Continue)) by {
        reveal(execute_high);
    }
}

/// Whether the conditional return with opcode `op` is taken under the flags of `r`: 0xC0 when
/// Z is clear, 0xC8 and 0xD0 when C is clear, 0xD8 when C is set.
pub open spec fn return_taken(op: u8, r: RegisterState) -> bool {
    (op == 0xC0 && !r.flag(Flag::Z)) || ((op == 0xC8 || op == 0xD0) && !r.flag(Flag::C)) || (op
        == 0xD8 && r.flag(Flag::C))
}

/// A conditional return whose condition holds loads PC from the little-endian word at SP and
/// raises SP by two; one whose condition fails moves PC past the opcode. No memory changes.
#[verifier::spinoff_prover]
pub proof fn law_step_conditional_return(s: CpuState)
    requires
        s.mem.len() == MEMORY_SIZE,
        s.backed(s.reg.pc as int),
        s.read(s.reg.pc) == 0xC0 || s.read(s.reg.pc) == 0xC8 || s.read(s.reg.pc) == 0xD0
            || s.read(s.reg.pc) == 0xD8,
        return_taken(s.read(s.reg.pc), s.reg) ==> s.reg.sp + 2 <= 0xFFFF && s.backed(
            s.reg.sp + 1,
        ),
    ensures
        !faults(s),
        step(s).1 == Step::Continue,
        step(s).0 == if return_taken(s.read(s.reg.pc), s.reg) {
            advanced(s, 0).with_reg(
                RegisterState {
                    sp: (s.reg.sp + 2) as u16,
                    pc: (s.read((s.reg.sp + 1) as u16) * 256 + s.read(s.reg.sp)) as u16,
                    ..s.reg
                },
            )
        } else {
            advanced(s, 1)
        },
{
    lemma_step_unfold(s);
    let op = s.read(s.reg.pc);
    let u = CpuState { opcode: op, ..fetch(s).0 };
    assert(execute_high(u, op) == (return_if(u, return_taken(op, u.reg)), Step::Continue)) by {
        reveal(execute_high);
    }
}

/// Writing a flag keeps the low nibble of F.
pub broadcast proof fn lemma_put_flag_low_nibble(f: u8, flag: Flag, v: bool)
    ensures
        #[trigger] put_flag(f, flag, v) & 0x0f == f & 0x0f,
{
    let other = if flag == Flag::Z {
        Flag::N
    } else {
        Flag::Z
    };
    law_flag_write_keeps_others(f, flag, other, v);
}

/// The 8-bit operand that the low three bits of an opcode name: B, C, D, E, H, L, the byte at
/// HL, or A.
pub open spec fn operand_by_code(s: CpuState, code: u8) -> u8 {
    if code == 0 {
        s.reg.b
    } else if code == 1 {
        s.reg.c
    } else if code == 2 {
        s.reg.d
    } else if code == 3 {
        s.reg.e
    } else if code == 4 {
        s.reg.h
    } else if code == 5 {
        s.reg.l
    } else if code == 6 {
        s.read(s.reg.hl())
    } else {
        s.reg.a
    }
}

/// Whether the instruction at PC is the 8-bit operation number `kind` on A: one of the opcodes
/// `0x80 + 8 * kind` to `0x87 + 8 * kind`, whose low three bits name the operand, or `imm` (when
/// it is not zero), whose operand is the next byte; all that it reads lies in memory.
pub open spec fn alu_instruction(s: CpuState, kind: u8, imm: u8) -> bool {
    let op = s.read(s.reg.pc);
    &&& s.mem.len() == MEMORY_SIZE
    &&& s.backed(s.reg.pc as int)
    &&& (0x80 + 8 * kind <= op < 0x88 + 8 * kind && (op % 8 == 6 ==> s.backed(s.reg.hl() as int)))
        || (imm != 0 && op == imm && s.backed(s.reg.pc + 1))
}

/// The length of the 8-bit operation on A at PC: two bytes for the immediate forms, else one.
pub open spec fn alu_length(s: CpuState) -> int {
    if s.read(s.reg.pc) >= 0xC0 {
        2
    } else {
        1
    }
}

/// The operand of the 8-bit operation on A at PC.
pub open spec fn alu_operand(s: CpuState) -> u8 {
    if s.read(s.reg.pc) >= 0xC0 {
        s.read((s.reg.pc + 1) as u16)
    } else {
        operand_by_code(s, s.read(s.reg.pc) % 8)
    }
}

/// Whether `t` is `s` with PC moved past an instruction of `len` bytes and the opcode recorded,
/// where only A and the flags may differ and the low nibble of F is kept.
pub open spec fn only_a_and_flags_change(s: CpuState, t: CpuState, len: int) -> bool {
    &&& t == advanced(s, len).with_reg(
        RegisterState { a: t.reg.a, f: t.reg.f, ..advanced(s, len).reg },
    )
    &&& t.reg.f & 0x0f == s.reg.f & 0x0f
}

proof fn lemma_alu_same_operand(u: CpuState, kind: u8, x: RegisterTarget, y: RegisterTarget)
    requires
        operand8(u, x) == operand8(u, y),
    ensures
        alu(u, kind, x) == alu(u, kind, y),
{
}

#[verifier::spinoff_prover]
proof fn lemma_step_alu_immediate(s: CpuState, kind: u8, op: u8)
    requires
        s.mem.len() == MEMORY_SIZE,
        s.backed(s.reg.pc + 1),
        s.read(s.reg.pc) == op,
        (kind == 1 && op == 0xC6) || (kind == 3 && op == 0xD6) || (kind == 4 && op == 0xE6) || (
        kind == 6 && op == 0xF6) || (kind == 7 && op == 0xFE),
    ensures
        !faults(s),
        step(s) == (
            alu(advanced(s, 2), kind, RegisterTarget::Value(s.read((s.reg.pc + 1) as u16) as u16)),
            Step::Continue,
        ),
{
    lemma_step_at(s, op);
    let u = CpuState { opcode: op, ..fetch(s).0 };
    assert(fetch(u).0 == advanced(s, 2));
    assert(op_ok(fetch(s).0, op));
    assert(execute_high(u, op) == (alu_immediate(u, kind), Step::Continue)) by {
        reveal(execute_high);
    }
}

#[verifier::spinoff_prover]
#[verifier::rlimit(40)]
proof fn lemma_step_alu_register(s: CpuState, kind: u8)
    requires
        kind < 8,
        s.mem.len() == MEMORY_SIZE,
        s.backed(s.reg.pc as int),
        0x80 + 8 * kind <= s.read(s.reg.pc) < 0x88 + 8 * kind,
        s.read(s.reg.pc) % 8 == 6 ==> s.backed(s.reg.hl() as int),
    ensures
        !faults(s),
        step(s) == (
            alu(
                advanced(s, 1),
                kind,
                RegisterTarget::Value(operand_by_code(s, s.read(s.reg.pc) % 8) as u16),
            ),
            Step::Continue,
        ),
{
    lemma_step_unfold(s);
    let op = s.read(s.reg.pc);
    let u = CpuState { opcode: op, ..fetch(s).0 };
    lemma_opcode_fields(op);
    assert((op / 8) % 8 == kind);
    assert(u == advanced(s, 1));
    assert(op_ok(fetch(s).0, op));
    assert(execute(u, op) == (alu(u, kind, target_of(op % 8)), Step::Continue));
    assert(operand8(u, target_of(op % 8)) == operand_by_code(s, op % 8));
    lemma_alu_same_operand(
        u,
        kind,
        target_of(op % 8),
        RegisterTarget::Value(operand_by_code(s, op % 8) as u16),
    );
}

#[verifier::spinoff_prover]
proof fn lemma_step_alu(s: CpuState, kind: u8, imm: u8)
    requires
        kind < 8,
        alu_instruction(s, kind, imm),
        imm == 0 || (kind == 1 && imm == 0xC6) || (kind == 3 && imm == 0xD6) || (kind == 4 && imm
            == 0xE6) || (kind == 6 && imm == 0xF6) || (kind == 7 && imm == 0xFE),
    ensures
        !faults(s),
        step(s) == (
            alu(advanced(s, alu_length(s)), kind, RegisterTarget::Value(alu_operand(s) as u16)),
            Step::Continue,
        ),
{
    if s.read(s.reg.pc) >= 0xC0 {
        lemma_step_alu_immediate(s, kind, imm);
    } else {
        lemma_step_alu_register(s, kind);
    }
}

/// `ADD` (0x80 to 0x87) leaves the sum of A and the operand modulo 256 in A; Z is set exactly
/// when that is zero, N is cleared, H and C are the carries out of bits 3 and 7.
#[verifier::spinoff_prover]
pub proof fn law_step_add(s: CpuState)
    requires
        alu_instruction(s, 0, 0),
    ensures
        !faults(s),
        step(s).1 == Step::Continue,
        step(s).0.reg.a == (s.reg.a + alu_operand(s)) % 256,
        step(s).0.reg.flag(Flag::Z) == ((s.reg.a + alu_operand(s)) % 256 == 0),
        !step(s).0.reg.flag(Flag::N),
        step(s).0.reg.flag(Flag::H) == (s.reg.a % 16 + alu_operand(s) % 16 > 15),
        step(s).0.reg.flag(Flag::C) == (s.reg.a + alu_operand(s) > 255),
        only_a_and_flags_change(s, step(s).0, alu_length(s)),
{
    broadcast use lemma_flag_of_put, lemma_put_flag_low_nibble;

    lemma_step_alu(s, 0, 0);
}

/// `ADC` (0x88 to 0x8F, and 0xC6 with the next byte) adds the operand and the carry flag to A
/// modulo 256; Z is set exactly when the result is zero, N is cleared, H and C are the carries
/// out of bits 3 and 7 of that sum.
#[verifier::spinoff_prover]
pub proof fn law_step_add_with_carry(s: CpuState)
    requires
        alu_instruction(s, 1, 0xC6),
    ensures
        !faults(s),
        step(s).1 == Step::Continue,
        ({
            let c: int = if s.reg.flag(Flag::C) {
                1
            } else {
                0
            };
            let sum = s.reg.a + alu_operand(s) + c;
            &&& step(s).0.reg.a == sum % 256
            &&& step(s).0.reg.flag(Flag::Z) == (sum % 256 == 0)
            &&& !step(s).0.reg.flag(Flag::N)
            &&& step(s).0.reg.flag(Flag::H) == (s.reg.a % 16 + alu_operand(s) % 16 + c > 15)
            &&& step(s).0.reg.flag(Flag::C) == (sum > 255)
        }),
        only_a_and_flags_change(s, step(s).0, alu_length(s)),
{
    broadcast use lemma_flag_of_put, lemma_put_flag_low_nibble;

    lemma_step_alu(s, 1, 0xC6);
}

/// `SUB` (0x90 to 0x97) leaves A less the operand modulo 256 in A; Z is set exactly when the two
/// were equal, N is set, H and C are the borrows into bits 3 and 7.
#[verifier::spinoff_prover]
pub proof fn law_step_subtract(s: CpuState)
    requires
        alu_instruction(s, 2, 0),
    ensures
        !faults(s),
        step(s).1 == Step::Continue,
        step(s).0.reg.a == (s.reg.a - alu_operand(s)) % 256,
        step(s).0.reg.flag(Flag::Z) == (s.reg.a == alu_operand(s)),
        step(s).0.reg.flag(Flag::N),
        step(s).0.reg.flag(Flag::H) == (s.reg.a % 16 < alu_operand(s) % 16),
        step(s).0.reg.flag(Flag::C) == (s.reg.a < alu_operand(s)),
        only_a_and_flags_change(s, step(s).0, alu_length(s)),
{
    broadcast use lemma_flag_of_put, lemma_put_flag_low_nibble;

    lemma_step_alu(s, 2, 0);
    lemma_wrap8(s.reg.a - alu_operand(s));
}

/// `SBC` (0x98 to 0x9F, and 0xD6 with the next byte) subtracts the operand and the carry flag
/// from A modulo 256; Z is set exactly when the result is zero, N is set, H and C are the
/// borrows of that difference.
#[verifier::spinoff_prover]
pub proof fn law_step_subtract_with_carry(s: CpuState)
    requires
        alu_instruction(s, 3, 0xD6),
    ensures
        !faults(s),
        step(s).1 == Step::Continue,
        ({
            let c: int = if s.reg.flag(Flag::C) {
                1
            } else {
                0
            };
            let diff = s.reg.a - alu_operand(s) - c;
            &&& step(s).0.reg.a == diff % 256
            &&& step(s).0.reg.flag(Flag::Z) == (diff % 256 == 0)
            &&& step(s).0.reg.flag(Flag::N)
            &&& step(s).0.reg.flag(Flag::H) == (s.reg.a % 16 < alu_operand(s) % 16 + c)
            &&& step(s).0.reg.flag(Flag::C) == (diff < 0)
        }),
        only_a_and_flags_change(s, step(s).0, alu_length(s)),
{
    broadcast use lemma_flag_of_put, lemma_put_flag_low_nibble;

    lemma_step_alu(s, 3, 0xD6);
}

/// `AND` (0xA0 to 0xA7, and 0xE6 with the next byte) leaves the bitwise and of A and the operand
/// in A; Z is set exactly when that is zero, H is set, N and C are cleared.
#[verifier::spinoff_prover]
pub proof fn law_step_and(s: CpuState)
    requires
        alu_instruction(s, 4, 0xE6),
    ensures
        !faults(s),
        step(s).1 == Step::Continue,
        step(s).0.reg.a == s.reg.a & alu_operand(s),
        step(s).0.reg.flag(Flag::Z) == (s.reg.a & alu_operand(s) == 0),
        !step(s).0.reg.flag(Flag::N),
        step(s).0.reg.flag(Flag::H),
        !step(s).0.reg.flag(Flag::C),
        only_a_and_flags_change(s, step(s).0, alu_length(s)),
{
    broadcast use lemma_flag_of_put, lemma_put_flag_low_nibble;

    lemma_step_alu(s, 4, 0xE6);
}

/// `XOR` (0xA8 to 0xAF) leaves the bitwise exclusive or of A and the operand in A; Z is set
/// exactly when that is zero, N, H and C are cleared.
#[verifier::spinoff_prover]
pub proof fn law_step_xor(s: CpuState)
    requires
        alu_instruction(s, 5, 0),
    ensures
        !faults(s),
        step(s).1 == Step::Continue,
        step(s).0.reg.a == s.reg.a ^ alu_operand(s),
        step(s).0.reg.flag(Flag::Z) == (s.reg.a ^ alu_operand(s) == 0),
        !step(s).0.reg.flag(Flag::N),
        !step(s).0.reg.flag(Flag::H),
        !step(s).0.reg.flag(Flag::C),
        only_a_and_flags_change(s, step(s).0, alu_length(s)),
{
    broadcast use lemma_flag_of_put, lemma_put_flag_low_nibble;

    lemma_step_alu(s, 5, 0);
}

/// `OR` (0xB0 to 0xB7, and 0xF6 with the next byte) leaves the bitwise or of A and the operand
/// in A; Z is set exactly when that is zero, N, H and C are cleared.
#[verifier::spinoff_prover]
pub proof fn law_step_or(s: CpuState)
    requires
        alu_instruction(s, 6, 0xF6),
    ensures
        !faults(s),
        step(s).1 == Step::Continue,
        step(s).0.reg.a == s.reg.a | alu_operand(s),
        step(s).0.reg.flag(Flag::Z) == (s.reg.a | alu_operand(s) == 0),
        !step(s).0.reg.flag(Flag::N),
        !step(s).0.reg.flag(Flag::H),
        !step(s).0.reg.flag(Flag::C),
        only_a_and_flags_change(s, step(s).0, alu_length(s)),
{
    broadcast use lemma_flag_of_put, lemma_put_flag_low_nibble;

    lemma_step_alu(s, 6, 0xF6);
}

/// `CP` (0xB8 to 0xBF, and 0xFE with the next byte) keeps A; Z is set exactly when A equals the
/// operand, N is set, H and C are the borrows of A less the operand.
#[verifier::spinoff_prover]
pub proof fn law_step_compare(s: CpuState)
    requires
        alu_instruction(s, 7, 0xFE),
    ensures
        !faults(s),
        step(s).1 == Step::Continue,
        step(s).0.reg.a == s.reg.a,
        step(s).0.reg.flag(Flag::Z) == (s.reg.a == alu_operand(s)),
        step(s).0.reg.flag(Flag::N),
        step(s).0.reg.flag(Flag::H) == (s.reg.a % 16 < alu_operand(s) % 16),
        step(s).0.reg.flag(Flag::C) == (s.reg.a < alu_operand(s)),
        only_a_and_flags_change(s, step(s).0, alu_length(s)),
{
    broadcast use lemma_flag_of_put, lemma_put_flag_low_nibble;

    lemma_step_alu(s, 7, 0xFE);
    lemma_wrap8(s.reg.a - alu_operand(s));
}

/// `s` with `v` written to the 8-bit operand that a three-bit code names: B, C, D, E, H, L, the
/// byte at HL, or A.
pub open spec fn put_by_code(s: CpuState, code: u8, v: u8) -> CpuState {
    if code == 0 {
        s.with_reg(RegisterState { b: v, ..s.reg })
    } else if code == 1 {
        s.with_reg(RegisterState { c: v, ..s.reg })
    } else if code == 2 {
        s.with_reg(RegisterState { d: v, ..s.reg })
    } else if code == 3 {
        s.with_reg(RegisterState { e: v, ..s.reg })
    } else if code == 4 {
        s.with_reg(RegisterState { h: v, ..s.reg })
    } else if code == 5 {
        s.with_reg(RegisterState { l: v, ..s.reg })
    } else if code == 6 {
        CpuState { mem: s.mem.update(s.reg.hl() as int, v), ..s }
    } else {
        s.with_reg(RegisterState { a: v, ..s.reg })
    }
}

/// `LD r, r'` (0x40 to 0x7F but 0x76) copies the operand that bits 0 to 2 name into the one that
/// bits 3 to 5 name, and changes nothing else but PC and the recorded opcode.
#[verifier::spinoff_prover]
#[verifier::rlimit(40)]
pub proof fn law_step_load_register(s: CpuState)
    requires
        s.mem.len() == MEMORY_SIZE,
        s.backed(s.reg.pc as int),
        0x40 <= s.read(s.reg.pc) < 0x80,
        s.read(s.reg.pc) != 0x76,
        s.read(s.reg.pc) % 8 == 6 || (s.read(s.reg.pc) / 8) % 8 == 6 ==> s.backed(
            s.reg.hl() as int,
        ),
    ensures
        !faults(s),
        step(s).1 == Step::Continue,
        step(s).0 == put_by_code(
            advanced(s, 1),
            (s.read(s.reg.pc) / 8) % 8,
            operand_by_code(s, s.read(s.reg.pc) % 8),
        ),
{
    lemma_step_unfold(s);
    let op = s.read(s.reg.pc);
    let u = CpuState { opcode: op, ..fetch(s).0 };
    assert(u == advanced(s, 1));
    let d = (op / 8) % 8;
    let x = operand_by_code(s, op % 8);
    assert(operand8(u, target_of(op % 8)) == x);
    assert(execute(u, op) == (load(u, target_of(d), target_of(op % 8)), Step::Continue));
    lemma_load_by_code(u, d, target_of(op % 8));
}

proof fn lemma_load_by_code(u: CpuState, d: u8, src: RegisterTarget)
    requires
        d < 8,
    ensures
        load(u, target_of(d), src) == put_by_code(u, d, operand8(u, src)),
{
    let x = operand8(u, src);
    assert(low(x as u16) == x);
    if d == 6 {
        assert(load(u, target_of(d), src) == u.write(u.reg.hl(), x));
    }
}

/// `LD r, n` (0x06, 0x0E, ..., 0x3E) loads the byte after the opcode into the operand that bits 3
/// to 5 name, and changes nothing else but PC and the recorded opcode.
#[verifier::spinoff_prover]
pub proof fn law_step_load_immediate(s: CpuState)
    requires
        s.mem.len() == MEMORY_SIZE,
        s.backed(s.reg.pc + 1),
        s.read(s.reg.pc) < 0x40,
        s.read(s.reg.pc) % 8 == 6,
        s.read(s.reg.pc) == 0x36 ==> s.backed(s.reg.hl() as int),
    ensures
        !faults(s),
        step(s).1 == Step::Continue,
        step(s).0 == put_by_code(
            advanced(s, 2),
            s.read(s.reg.pc) / 8,
            s.read((s.reg.pc + 1) as u16),
        ),
{
    lemma_step_unfold(s);
    let op = s.read(s.reg.pc);
    let u = CpuState { opcode: op, ..fetch(s).0 };
    let n = s.read((s.reg.pc + 1) as u16);
    assert(fetch(u).0 == advanced(s, 2));
    assert(low(n as u16) == n);
    assert(execute_low(u, op) == (load_immediate(u, target_of(op / 8)), Step::Continue)) by {
        reveal(execute_low);
    }
}

/// `LD A, (BC)` (0x0A) and `LD A, (DE)` (0x1A) load A from the byte that the pair points to, and
/// change nothing else but PC and the recorded opcode.
#[verifier::spinoff_prover]
pub proof fn law_step_load_a_indirect(s: CpuState)
    requires
        s.mem.len() == MEMORY_SIZE,
        s.backed(s.reg.pc as int),
        s.read(s.reg.pc) == 0x0A || s.read(s.reg.pc) == 0x1A,
        s.read(s.reg.pc) == 0x0A ==> s.backed(s.reg.bc() as int),
        s.read(s.reg.pc) == 0x1A ==> s.backed(s.reg.de() as int),
    ensures
        !faults(s),
        step(s).1 == Step::Continue,
        step(s).0 == ({
            let addr = if s.read(s.reg.pc) == 0x0A {
                s.reg.b * 256 + s.reg.c
            } else {
                s.reg.d * 256 + s.reg.e
            };
            advanced(s, 1).with_reg(
                RegisterState { a: s.mem[addr], pc: (s.reg.pc + 1) as u16, ..s.reg },
            )
        }),
{
    lemma_step_unfold(s);
    let op = s.read(s.reg.pc);
    let u = CpuState { opcode: op, ..fetch(s).0 };
    assert(execute_low(u, op) == (
        load(
            u,
            RegisterTarget::A,
            RegisterTarget::MemoryAdress(if op == 0x0A { u.reg.bc() } else { u.reg.de() }),
        ),
        Step::Continue,
    )) by {
        reveal(execute_low);
    }
}

/// `LD (BC), A` (0x02) and `LD (DE), A` (0x12) store A at the address in the pair, and change
/// nothing else but PC and the recorded opcode.
#[verifier::spinoff_prover]
pub proof fn law_step_store_a_indirect(s: CpuState)
    requires
        s.mem.len() == MEMORY_SIZE,
        s.backed(s.reg.pc as int),
        s.read(s.reg.pc) == 0x02 || s.read(s.reg.pc) == 0x12,
        s.read(s.reg.pc) == 0x02 ==> s.backed(s.reg.bc() as int),
        s.read(s.reg.pc) == 0x12 ==> s.backed(s.reg.de() as int),
    ensures
        !faults(s),
        step(s).1 == Step::Continue,
        step(s).0 == ({
            let addr = if s.read(s.reg.pc) == 0x02 {
                s.reg.b * 256 + s.reg.c
            } else {
                s.reg.d * 256 + s.reg.e
            };
            CpuState { mem: s.mem.update(addr, s.reg.a), ..advanced(s, 1) }
        }),
{
    lemma_step_unfold(s);
    let op = s.read(s.reg.pc);
    let u = CpuState { opcode: op, ..fetch(s).0 };
    assert(execute_low(u, op) == (
        u.write(if op == 0x02 { u.reg.bc() } else { u.reg.de() }, u.reg.a),
        Step::Continue,
    )) by {
        reveal(execute_low);
    }
}

/// `LD (HL+), A` (0x22) and `LD (HL-), A` (0x32) store A at HL; `LD A, (HL+)` (0x2A) and
/// `LD A, (HL-)` (0x3A) load A from HL. Then HL moves by one modulo 2^16: up for 0x22, 0x2A and
/// 0x3A, down for 0x32. Nothing else changes but PC and the recorded opcode.
#[verifier::spinoff_prover]
pub proof fn law_step_load_through_hl(s: CpuState)
    requires
        s.mem.len() == MEMORY_SIZE,
        s.backed(s.reg.pc as int),
        s.read(s.reg.pc) == 0x22 || s.read(s.reg.pc) == 0x2A || s.read(s.reg.pc) == 0x32
            || s.read(s.reg.pc) == 0x3A,
        s.backed(s.reg.h * 256 + s.reg.l),
    ensures
        !faults(s),
        step(s).1 == Step::Continue,
        step(s).0 == ({
            let op = s.read(s.reg.pc);
            let hl = s.reg.h * 256 + s.reg.l;
            let next = if op == 0x32 {
                (hl + 0xFFFF) % 0x10000
            } else {
                (hl + 1) % 0x10000
            };
            let stores = op == 0x22 || op == 0x32;
            CpuState {
                reg: RegisterState {
                    a: if stores {
                        s.reg.a
                    } else {
                        s.mem[hl]
                    },
                    h: (next / 256) as u8,
                    l: (next % 256) as u8,
                    pc: (s.reg.pc + 1) as u16,
                    ..s.reg
                },
                mem: if stores {
                    s.mem.update(hl, s.reg.a)
                } else {
                    s.mem
                },
                opcode: op,
                ..s
            }
        }),
{
    lemma_step_unfold(s);
    let op = s.read(s.reg.pc);
    let u = CpuState { opcode: op, ..fetch(s).0 };
    let hl = u.reg.hl();
    assert(execute_low(u, op) == (
        if op == 0x22 {
            inc_target(u.write(hl, u.reg.a), RegisterTarget::HL, false)
        } else if op == 0x32 {
            dec_target(u.write(hl, u.reg.a), RegisterTarget::HL, false)
        } else {
            inc_target(
                load(u, RegisterTarget::A, RegisterTarget::MemoryAdress(hl)),
                RegisterTarget::HL,
                false,
            )
        },
        Step::Continue,
    )) by {
        reveal(execute_low);
    }
    let hl = s.reg.hl();
    lemma_word_parts(s.reg.h, s.reg.l);
    if hl == 0 {
        assert(wrap16(hl - 1) == 0xFFFF);
    }
}

/// `LD rr, nn` (0x01, 0x11, 0x21, 0x31) loads BC, DE, HL or SP with the little-endian word after
/// the opcode (high byte into B, D or H), and changes nothing else but PC and the recorded
/// opcode.
#[verifier::spinoff_prover]
pub proof fn law_step_load_pair_immediate(s: CpuState)
    requires
        s.mem.len() == MEMORY_SIZE,
        s.backed(s.reg.pc + 2),
        s.read(s.reg.pc) == 0x01 || s.read(s.reg.pc) == 0x11 || s.read(s.reg.pc) == 0x21
            || s.read(s.reg.pc) == 0x31,
    ensures
        !faults(s),
        step(s).1 == Step::Continue,
        step(s).0 == ({
            let op = s.read(s.reg.pc);
            let lo = s.read((s.reg.pc + 1) as u16);
            let hi = s.read((s.reg.pc + 2) as u16);
            let r = advanced(s, 3).reg;
            advanced(s, 3).with_reg(
                if op == 0x01 {
                    RegisterState { b: hi, c: lo, ..r }
                } else if op == 0x11 {
                    RegisterState { d: hi, e: lo, ..r }
                } else if op == 0x21 {
                    RegisterState { h: hi, l: lo, ..r }
                } else {
                    RegisterState { sp: (hi * 256 + lo) as u16, ..r }
                },
            )
        }),
{
    lemma_step_unfold(s);
    let op = s.read(s.reg.pc);
    let u = CpuState { opcode: op, ..fetch(s).0 };
    let pair = if op == 0x01 {
        RegisterTarget::BC
    } else if op == 0x11 {
        RegisterTarget::DE
    } else if op == 0x21 {
        RegisterTarget::HL
    } else {
        RegisterTarget::SP
    };
    assert(execute_low(u, op) == (load_pair_immediate(u, pair), Step::Continue)) by {
        reveal(execute_low);
    }
    lemma_word_parts(s.read((s.reg.pc + 2) as u16), s.read((s.reg.pc + 1) as u16));
}

/// `LD (nn), SP` (0x08) stores the low byte of SP at the little-endian address after the opcode
/// and the high byte at the address after it, and changes nothing else but PC and the recorded
/// opcode.
#[verifier::spinoff_prover]
pub proof fn law_step_store_sp(s: CpuState)
    requires
        s.mem.len() == MEMORY_SIZE,
        s.backed(s.reg.pc + 2),
        s.read(s.reg.pc) == 0x08,
        s.backed(s.read((s.reg.pc + 2) as u16) * 256 + s.read((s.reg.pc + 1) as u16) + 1),
    ensures
        !faults(s),
        step(s).1 == Step::Continue,
        step(s).0 == ({
            let addr = s.read((s.reg.pc + 2) as u16) * 256 + s.read((s.reg.pc + 1) as u16);
            CpuState {
                mem: s.mem.update(addr, (s.reg.sp % 256) as u8).update(
                    addr + 1,
                    (s.reg.sp / 256) as u8,
                ),
                ..advanced(s, 3)
            }
        }),
{
    lemma_step_unfold(s);
    let u = CpuState { opcode: 0x08, ..fetch(s).0 };
    assert(execute_low(u, 0x08) == (store_sp(u), Step::Continue)) by {
        reveal(execute_low);
    }
}

#[verifier::spinoff_prover]
#[verifier::rlimit(60)]
proof fn lemma_step_store_high_page(s: CpuState)
    requires
        s.mem.len() == MEMORY_SIZE,
        s.backed(s.reg.pc + 1),
        s.read(s.reg.pc) == 0xE0,
        s.backed(0xFF00 + s.read((s.reg.pc + 1) as u16)),
    ensures
        !faults(s),
        step(s).1 == Step::Continue,
        step(s).0 == load(
            advanced(s, 2),
            RegisterTarget::MemoryAdress((0xFF00 + s.read((s.reg.pc + 1) as u16)) as u16),
            RegisterTarget::A,
        ),
{
    lemma_step_at(s, 0xE0);
    let u = CpuState { opcode: 0xE0, ..fetch(s).0 };
    assert(fetch(u) == (advanced(s, 2), s.read((s.reg.pc + 1) as u16)));
    assert(op_ok(fetch(s).0, 0xE0));
    assert(execute_high(u, 0xE0) == (
        load(
            fetch(u).0,
            RegisterTarget::MemoryAdress((0xFF00 + fetch(u).1) as u16),
            RegisterTarget::A,
        ),
        Step::Continue,
    )) by {
        reveal(execute_high);
    }
}

#[verifier::spinoff_prover]
proof fn lemma_step_load_high_page(s: CpuState)
    requires
        s.mem.len() == MEMORY_SIZE,
        s.backed(s.reg.pc + 1),
        s.read(s.reg.pc) == 0xF0,
        s.backed(0xFF00 + s.read((s.reg.pc + 1) as u16)),
    ensures
        !faults(s),
        step(s).1 == Step::Continue,
        step(s).0 == load(
            advanced(s, 2),
            RegisterTarget::A,
            RegisterTarget::MemoryAdress((0xFF00 + s.read((s.reg.pc + 1) as u16)) as u16),
        ),
{
    lemma_step_at(s, 0xF0);
    let u = CpuState { opcode: 0xF0, ..fetch(s).0 };
    assert(fetch(u) == (advanced(s, 2), s.read((s.reg.pc + 1) as u16)));
    assert(op_ok(fetch(s).0, 0xF0));
    assert(execute_high(u, 0xF0) == (
        load(
            fetch(u).0,
            RegisterTarget::A,
            RegisterTarget::MemoryAdress((0xFF00 + fetch(u).1) as u16),
        ),
        Step::Continue,
    )) by {
        reveal(execute_high);
    }
}

/// `LDH (n), A` (0xE0) stores A at 0xFF00 plus the byte after the opcode; `LDH A, (n)` (0xF0)
/// loads A from there. Nothing else changes but PC and the recorded opcode.
pub proof fn law_step_load_high_page(s: CpuState)
    requires
        s.mem.len() == MEMORY_SIZE,
        s.backed(s.reg.pc + 1),
        s.read(s.reg.pc) == 0xE0 || s.read(s.reg.pc) == 0xF0,
        s.backed(0xFF00 + s.read((s.reg.pc + 1) as u16)),
    ensures
        !faults(s),
        step(s).1 == Step::Continue,
        step(s).0 == ({
            let addr = 0xFF00 + s.read((s.reg.pc + 1) as u16);
            if s.read(s.reg.pc) == 0xE0 {
                CpuState { mem: s.mem.update(addr, s.reg.a), ..advanced(s, 2) }
            } else {
                advanced(s, 2).with_reg(
                    RegisterState { a: s.mem[addr], ..advanced(s, 2).reg },
                )
            }
        }),
{
    let n = s.read((s.reg.pc + 1) as u16);
    let addr = (0xFF00 + n) as u16;
    let v = advanced(s, 2);
    assert(addr as int == 0xFF00 + n);
    if s.read(s.reg.pc) == 0xE0 {
        lemma_step_store_high_page(s);
        assert(low(s.reg.a as u16) == s.reg.a);
    } else {
        lemma_step_load_high_page(s);
        assert(low(v.read(addr) as u16) == v.read(addr));
    }
}

} // verus!
