use vstd::prelude::*;
use crate::cpu::{Flag, RegisterTarget, Step};
use crate::bits::{lemma_bcd_adjust, lemma_low_nibble, lemma_word_parts, lemma_wrap8};
use crate::memory::MEMORY_SIZE;
use crate::semantics::{
    add_a, cp_a, daa, daa_high, daa_low, dec_target, execute, execute_high, faults, fetch,
    flag_mask, flag_of, hex_digit, hex_text, high, inc_target, low, op_ok, operand8, pop_af,
    pop_ok, pop_pair, pop_word, push_af, push_ok, push_word, put_flag, read_target, relative_jump,
    rla, rlca, rra, rrca, step, step_ok, sub_a, target_writable, word, wrap16, write_target, xor_a,
    CpuState, RegisterState,
};

verus! {

proof fn lemma_mask_own(f: u8, m: u8)
    by (bit_vector)
    requires
        m != 0,
    ensures
        (f | m) & m != 0,
        (f & !m) & m == 0,
        m | !m == 0xff,
        m & !m == 0,
{
}

proof fn lemma_mask_other(f: u8, m: u8, g: u8)
    by (bit_vector)
    requires
        m & g == 0,
    ensures
        (f | m) & g == f & g,
        (f & !m) & g == f & g,
{
}

proof fn lemma_flag_masks()
    by (bit_vector)
    ensures
        0x80u8 & 0x40u8 == 0,
        0x80u8 & 0x20u8 == 0,
        0x80u8 & 0x10u8 == 0,
        0x40u8 & 0x20u8 == 0,
        0x40u8 & 0x10u8 == 0,
        0x20u8 & 0x10u8 == 0,
        0x40u8 & 0x80u8 == 0,
        0x20u8 & 0x80u8 == 0,
        0x10u8 & 0x80u8 == 0,
        0x20u8 & 0x40u8 == 0,
        0x10u8 & 0x40u8 == 0,
        0x10u8 & 0x20u8 == 0,
        0x80u8 & 0x0fu8 == 0,
        0x40u8 & 0x0fu8 == 0,
        0x20u8 & 0x0fu8 == 0,
        0x10u8 & 0x0fu8 == 0,
        0x80u8 & 0x80u8 != 0,
        0x40u8 & 0x40u8 != 0,
        0x20u8 & 0x20u8 != 0,
        0x10u8 & 0x10u8 != 0,
{
}

/// Each flag is one bit of the high nibble of F, and no two flags share a bit; the mask of a
/// flag and its complement (`og` and `bw`) split the byte between them.
pub proof fn law_flag_masks(flag: Flag, other: Flag)
    ensures
        flag_mask(flag) & 0x0f == 0,
        flag_mask(flag) & flag_mask(flag) != 0,
        flag != other ==> flag_mask(flag) & flag_mask(other) == 0,
        flag_mask(flag) | !flag_mask(flag) == 0xff,
        flag_mask(flag) & !flag_mask(flag) == 0,
{
    lemma_flag_masks();
    lemma_mask_own(0, flag_mask(flag));
}

/// Reading a flag gives back the value last written to it.
pub proof fn law_flag_read_after_write(f: u8, flag: Flag, v: bool)
    ensures
        flag_of(put_flag(f, flag, v), flag) == v,
{
    lemma_flag_masks();
    lemma_mask_own(f, flag_mask(flag));
}

/// Writing one flag leaves every other flag, and the low nibble of F, as it was.
pub proof fn law_flag_write_keeps_others(f: u8, flag: Flag, other: Flag, v: bool)
    requires
        flag != other,
    ensures
        flag_of(put_flag(f, flag, v), other) == flag_of(f, other),
        put_flag(f, flag, v) & 0x0f == f & 0x0f,
{
    lemma_flag_masks();
    lemma_mask_other(f, flag_mask(flag), flag_mask(other));
    lemma_mask_other(f, flag_mask(flag), 0x0f);
}

/// A flag read after a write: the written value for that flag, the old value for the others.
pub broadcast proof fn lemma_flag_of_put(f: u8, flag: Flag, v: bool, other: Flag)
    ensures
        #[trigger] flag_of(put_flag(f, flag, v), other) == if flag == other {
            v
        } else {
            flag_of(f, other)
        },
{
    law_flag_read_after_write(f, flag, v);
    if flag != other {
        law_flag_write_keeps_others(f, flag, other, v);
    }
}

proof fn lemma_word_roundtrip(v: u16)
    ensures
        word(high(v), low(v)) == v,
        high(word(high(v), low(v))) == high(v),
        word(high(v), (low(v) / 16 * 16) as u8) == (v / 16 * 16) as u16,
{
    assert(v / 256 * 256 + v % 256 == v) by (nonlinear_arith);
    assert(v / 256 * 256 + (v % 256) / 16 * 16 == v / 16 * 16) by (nonlinear_arith);
}

/// A register pair reads back the word last loaded into it; AF reads it back with the low
/// nibble of F cleared.
pub proof fn law_pair_read_after_write(r: RegisterState, v: u16)
    ensures
        r.with_bc(v).bc() == v,
        r.with_de(v).de() == v,
        r.with_hl(v).hl() == v,
        r.with_af(v).af() == (v / 16 * 16) as u16,
{
    lemma_word_roundtrip(v);
}

/// Loading a register pair with its own value changes nothing; for AF this holds when the
/// low nibble of F is clear.
pub proof fn law_pair_write_own_value(r: RegisterState)
    ensures
        r.with_bc(r.bc()) == r,
        r.with_de(r.de()) == r,
        r.with_hl(r.hl()) == r,
        r.f % 16 == 0 ==> r.with_af(r.af()) == r,
{
    lemma_word_parts(r.b, r.c);
    lemma_word_parts(r.d, r.e);
    lemma_word_parts(r.h, r.l);
    lemma_word_parts(r.a, r.f);
}

/// Every writable operand reads back what was written to it: 8-bit registers and memory
/// cells the low byte, BC, DE, HL and SP the whole word, AF the word with the low nibble of F
/// cleared.
pub proof fn law_target_read_after_write(s: CpuState, t: RegisterTarget, v: u16)
    requires
        target_writable(s, t),
    ensures
        read_target(write_target(s, t, v), t) == match t {
            RegisterTarget::AF => (v / 16 * 16) as u16,
            RegisterTarget::BC | RegisterTarget::DE | RegisterTarget::HL | RegisterTarget::SP => v,
            _ => low(v) as u16,
        },
{
    law_pair_read_after_write(s.reg, v);
}

/// A write to memory is read back at its address and leaves every other address alone.
pub proof fn law_memory_read_after_write(s: CpuState, addr: u16, other: u16, v: u8)
    requires
        s.backed(addr as int),
        s.backed(other as int),
    ensures
        s.write(addr, v).read(addr) == v,
        other != addr ==> s.write(addr, v).read(other) == s.read(other),
        s.write(addr, v).mem.len() == s.mem.len(),
{
}

/// `PUSH` stores the high byte at SP - 1 and the low byte at SP - 2, and `POP` returns what it
/// stored: the word comes back, SP and every register are as before the push, and the pop
/// leaves memory as the push left it.
pub proof fn law_pop_returns_pushed(s: CpuState, v: u16)
    requires
        push_ok(s),
    ensures
        push_word(s, v).read((s.reg.sp - 1) as u16) == high(v),
        push_word(s, v).read((s.reg.sp - 2) as u16) == low(v),
        push_word(s, v).reg.sp == s.reg.sp - 2,
        pop_word(push_word(s, v)).0.mem == push_word(s, v).mem,
        pop_ok(push_word(s, v)),
        pop_word(push_word(s, v)).1 == v,
        pop_word(push_word(s, v)).0.reg == s.reg,
{
    lemma_word_roundtrip(v);
    let t = push_word(s, v);
    assert(t.read((t.reg.sp + 1) as u16) == high(v));
    assert(t.read(t.reg.sp) == low(v));
}

/// `POP AF` restores the A and F that `PUSH AF` saved, and SP; it reads A from the lower
/// address, so this holds when A and F were equal.
pub proof fn law_pop_af_after_push_af(s: CpuState)
    requires
        s.backed(wrap16(s.reg.sp - 1) as int),
        s.backed(wrap16(s.reg.sp - 2) as int),
        s.reg.a == s.reg.f,
    ensures
        pop_af(push_af(s)).reg == s.reg,
{
    let sp = s.reg.sp as int;
    assert(wrap16(wrap16(sp - 2) + 1) == wrap16(sp - 1));
    assert(wrap16(wrap16(sp - 2) + 2) == sp);
    assert(wrap16(sp - 2) != wrap16(sp - 1));
}

/// `POP AF` after `PUSH AF` exchanges A and F and restores SP.
pub proof fn law_pop_af_after_push_af_swaps(s: CpuState)
    requires
        s.backed(wrap16(s.reg.sp - 1) as int),
        s.backed(wrap16(s.reg.sp - 2) as int),
    ensures
        pop_af(push_af(s)).reg.a == s.reg.f,
        pop_af(push_af(s)).reg.f == s.reg.a,
        pop_af(push_af(s)).reg.sp == s.reg.sp,
{
    let sp = s.reg.sp as int;
    assert(wrap16(wrap16(sp - 2) + 1) == wrap16(sp - 1));
    assert(wrap16(wrap16(sp - 2) + 2) == sp);
    assert(wrap16(sp - 2) != wrap16(sp - 1));
}

/// `RRCA` after `RLCA` gives A back, leaves C holding the old bit 7 and Z, N and H clear, and
/// changes no other register and no memory.
pub proof fn law_rrca_undoes_rlca(s: CpuState)
    ensures
        rrca(rlca(s)).reg.a == s.reg.a,
        rrca(rlca(s)).reg.flag(Flag::C) == (s.reg.a >= 128),
        !rrca(rlca(s)).reg.flag(Flag::Z),
        !rrca(rlca(s)).reg.flag(Flag::N),
        !rrca(rlca(s)).reg.flag(Flag::H),
        rrca(rlca(s)).reg == (RegisterState { f: rrca(rlca(s)).reg.f, ..s.reg }),
        rrca(rlca(s)).mem == s.mem,
{
    broadcast use lemma_flag_of_put;

}

/// `RRA` after `RLA` gives A and the carry flag back, leaves Z, N and H clear, and changes no
/// other register and no memory.
pub proof fn law_rra_undoes_rla(s: CpuState)
    ensures
        rra(rla(s)).reg.a == s.reg.a,
        rra(rla(s)).reg.flag(Flag::C) == s.reg.flag(Flag::C),
        !rra(rla(s)).reg.flag(Flag::Z),
        !rra(rla(s)).reg.flag(Flag::N),
        !rra(rla(s)).reg.flag(Flag::H),
        rra(rla(s)).reg == (RegisterState { f: rra(rla(s)).reg.f, ..s.reg }),
        rra(rla(s)).mem == s.mem,
{
    broadcast use lemma_flag_of_put;

}

/// `CP` sets the flags as `SUB` does and leaves A and memory unchanged.
pub proof fn law_compare_is_subtract_without_result(s: CpuState, t: RegisterTarget)
    ensures
        cp_a(s, t).reg.a == s.reg.a,
        cp_a(s, t).reg.f == sub_a(s, t, false).reg.f,
        cp_a(s, t).mem == s.mem,
{
}

/// `SUB` of a value undoes `ADD` of the same value on A (modulo 256).
pub proof fn law_sub_undoes_add(s: CpuState, v: u8)
    ensures
        sub_a(add_a(s, RegisterTarget::Value(v as u16), false), RegisterTarget::Value(v as u16), false).reg.a
            == s.reg.a,
{
}

proof fn lemma_wrap_back(x: u16)
    ensures
        wrap16(wrap16(x + 1) - 1) == x,
{
    if x == 0xFFFF {
        assert(wrap16(x + 1) == 0);
    } else {
        assert(wrap16(x + 1) == x + 1);
    }
}

proof fn lemma_dec_inc_pair(s: CpuState, t: RegisterTarget)
    requires
        t == RegisterTarget::BC || t == RegisterTarget::DE || t == RegisterTarget::HL,
    ensures
        dec_target(inc_target(s, t, false), t, false) == s,
{
    let r = s.reg;
    law_pair_write_own_value(r);
    if t == RegisterTarget::BC {
        let w = wrap16(r.bc() + 1);
        lemma_wrap_back(r.bc());
        law_pair_read_after_write(r, w);
        assert(r.with_bc(w).with_bc(r.bc()) == r.with_bc(r.bc()));
    } else if t == RegisterTarget::DE {
        let w = wrap16(r.de() + 1);
        lemma_wrap_back(r.de());
        law_pair_read_after_write(r, w);
        assert(r.with_de(w).with_de(r.de()) == r.with_de(r.de()));
    } else {
        let w = wrap16(r.hl() + 1);
        lemma_wrap_back(r.hl());
        law_pair_read_after_write(r, w);
        assert(r.with_hl(w).with_hl(r.hl()) == r.with_hl(r.hl()));
    }
}

/// Decrementing an operand undoes incrementing it, for every 8-bit register, memory cell,
/// register pair and SP, wrapping at both ends (AF is left out: it does not store the low
/// nibble of F).
pub proof fn law_dec_undoes_inc(s: CpuState, t: RegisterTarget)
    requires
        step_ok(s, t),
        t != RegisterTarget::AF,
    ensures
        dec_target(inc_target(s, t, false), t, false) == s,
{
    if t == RegisterTarget::SP {
        lemma_wrap_back(s.reg.sp);
    } else if t == RegisterTarget::BC || t == RegisterTarget::DE || t == RegisterTarget::HL {
        lemma_dec_inc_pair(s, t);
    } else {
        let v = read_target(s, t);
        assert(v < 256);
        assert(low(wrap16(v + 1)) as u16 == (v + 1) % 256);
        assert(low(wrap16(((v + 1) % 256) - 1)) == v);
        if let RegisterTarget::MemoryAdress(addr) = t {
            let t1 = inc_target(s, t, false);
            assert(t1.mem == s.mem.update(addr as int, low(wrap16(v + 1))));
            assert(dec_target(t1, t, false).mem =~= s.mem);
        }
    }
}

proof fn lemma_xor_self(a: u8)
    by (bit_vector)
    ensures
        a ^ a == 0,
{
}

/// `XOR A` clears A and sets Z.
pub proof fn law_xor_a_clears(s: CpuState)
    ensures
        xor_a(s, RegisterTarget::A).reg.a == 0,
        xor_a(s, RegisterTarget::A).reg.flag(Flag::Z),
{
    broadcast use lemma_flag_of_put;

    lemma_xor_self(s.reg.a);
}


/// A `JR` whose condition fails still consumes its displacement: PC moves past both bytes.
pub proof fn law_jump_not_taken_consumes_displacement(s: CpuState)
    ensures
        relative_jump(s, false).reg.pc == wrap16(s.reg.pc + 1),
        relative_jump(s, false).mem == s.mem,
{
}

proof fn lemma_step_push_bc(s: CpuState)
    requires
        s.mem.len() == MEMORY_SIZE,
        s.backed(s.reg.pc as int),
        s.read(s.reg.pc) == 0xC5,
        push_ok(s),
    ensures
        !faults(s),
        step(s) == ({
            let u = CpuState { opcode: 0xC5, ..fetch(s).0 };
            (push_word(u, u.reg.bc()), Step::Continue)
        }),
{
    reveal(faults);
    reveal(step);
    let u = CpuState { opcode: 0xC5, ..fetch(s).0 };
    assert(op_ok(fetch(s).0, 0xC5));
    assert(execute_high(u, 0xC5) == (push_word(u, u.reg.bc()), Step::Continue)) by {
        reveal(execute_high);
    }
    assert(execute(u, 0xC5) == execute_high(u, 0xC5));
}

proof fn lemma_step_pop_de(s: CpuState)
    requires
        s.mem.len() == MEMORY_SIZE,
        s.backed(s.reg.pc as int),
        s.read(s.reg.pc) == 0xD1,
        pop_ok(s),
    ensures
        !faults(s),
        step(s) == ({
            let u = CpuState { opcode: 0xD1, ..fetch(s).0 };
            (pop_pair(u, RegisterTarget::DE), Step::Continue)
        }),
{
    reveal(faults);
    reveal(step);
    let u = CpuState { opcode: 0xD1, ..fetch(s).0 };
    assert(op_ok(fetch(s).0, 0xD1));
    assert(execute_high(u, 0xD1) == (pop_pair(u, RegisterTarget::DE), Step::Continue)) by {
        reveal(execute_high);
    }
    assert(execute(u, 0xD1) == execute_high(u, 0xD1));
}

/// Running `PUSH BC` and then `POP DE` copies BC into DE and leaves SP where it was, provided
/// both opcodes lie in memory, the stack has room, and the push does not overwrite the
/// second opcode.
pub proof fn law_push_then_pop_copies_pair(s: CpuState)
    requires
        s.mem.len() == MEMORY_SIZE,
        s.backed(s.reg.pc + 1),
        s.read(s.reg.pc) == 0xC5,
        s.read((s.reg.pc + 1) as u16) == 0xD1,
        s.reg.sp >= 2,
        s.backed(s.reg.sp - 1),
        s.reg.pc + 1 != s.reg.sp - 1,
        s.reg.pc + 1 != s.reg.sp - 2,
    ensures
        !faults(s),
        step(s).1 == Step::Continue,
        !faults(step(s).0),
        step(step(s).0).1 == Step::Continue,
        step(step(s).0).0.reg.de() == s.reg.bc(),
        step(step(s).0).0.reg.bc() == s.reg.bc(),
        step(step(s).0).0.reg.sp == s.reg.sp,
        step(step(s).0).0.reg.pc == s.reg.pc + 2,
{
    lemma_step_push_bc(s);
    let u = CpuState { opcode: 0xC5, ..fetch(s).0 };
    let t = step(s).0;
    assert(t == push_word(u, u.reg.bc()));
    assert(t.reg.pc == s.reg.pc + 1 && t.reg.sp == s.reg.sp - 2 && t.mem.len() == MEMORY_SIZE);
    law_pop_returns_pushed(u, u.reg.bc());
    assert(pop_ok(t));
    assert(t.read(t.reg.pc) == 0xD1) by {
        assert(t.mem == s.mem.update(s.reg.sp - 1, high(s.reg.bc())).update(s.reg.sp - 2, low(s.reg.bc())));
    }
    lemma_step_pop_de(t);
    let v = CpuState { opcode: 0xD1, ..fetch(t).0 };
    assert(pop_word(v).1 == s.reg.bc());
    let w = pop_word(v).0;
    assert(step(t).0 == w.with_reg(w.reg.with_de(s.reg.bc())));
    law_pair_read_after_write(w.reg, s.reg.bc());
}

/// Whether both digits of a byte are decimal (packed BCD).
pub open spec fn bcd_ok(x: u8) -> bool {
    x % 16 <= 9 && x / 16 <= 9
}

/// The number that a packed-BCD byte stands for.
pub open spec fn bcd_value(x: u8) -> int {
    10 * (x / 16) + x % 16
}

/// `ADD` of two packed-BCD numbers followed by `DAA` leaves their decimal sum modulo 100 in A,
/// in packed BCD, with C set exactly when the sum reached 100 and Z when A is zero.
pub proof fn law_daa_after_bcd_add(s: CpuState, y: u8)
    requires
        bcd_ok(s.reg.a),
        bcd_ok(y),
    ensures
        bcd_ok(daa(add_a(s, RegisterTarget::Value(y as u16), false)).reg.a),
        bcd_value(daa(add_a(s, RegisterTarget::Value(y as u16), false)).reg.a) == (bcd_value(
            s.reg.a,
        ) + bcd_value(y)) % 100,
        daa(add_a(s, RegisterTarget::Value(y as u16), false)).reg.flag(Flag::C) == (bcd_value(
            s.reg.a,
        ) + bcd_value(y) >= 100),
        daa(add_a(s, RegisterTarget::Value(y as u16), false)).reg.flag(Flag::Z) == (daa(
            add_a(s, RegisterTarget::Value(y as u16), false),
        ).reg.a == 0),
{
    broadcast use lemma_flag_of_put;

    let x = s.reg.a;
    let t = add_a(s, RegisterTarget::Value(y as u16), false);
    assert(operand8(s, RegisterTarget::Value(y as u16)) == y);
    let a = t.reg.a;
    lemma_wrap8(x + y);
    let lo = t.reg.flag(Flag::H) || (!t.reg.flag(Flag::N) && a % 16 > 9);
    let hi = t.reg.flag(Flag::C) || (!t.reg.flag(Flag::N) && a > 0x99);
    assert(daa_low(t) == if lo { 6int } else { 0int });
    assert(daa_high(t) == if hi { 0x60int } else { 0int });
    let adjust = daa_low(t) + daa_high(t);
    lemma_wrap8(a + adjust);
    let r = daa(t).reg.a;
    lemma_low_nibble(x);
    lemma_low_nibble(y);
    lemma_low_nibble(a);
    lemma_low_nibble(r);
    lemma_bcd_adjust(x, y, a, r, lo, hi);
}

/// Whether a character is a lower-case hexadecimal digit.
pub open spec fn is_hex_digit(c: char) -> bool {
    (48 <= c as u32 && c as u32 <= 57) || (97 <= c as u32 && c as u32 <= 102)
}

/// The number that a hexadecimal digit stands for.
pub open spec fn hex_digit_value(c: char) -> int {
    if c as u32 <= 57 {
        c as u32 - 48
    } else {
        c as u32 - 87
    }
}

/// The number that a string of hexadecimal digits stands for, most significant digit first.
pub open spec fn hex_number(t: Seq<char>) -> int
    decreases t.len(),
{
    if t.len() == 0 {
        0
    } else {
        hex_number(t.drop_last()) * 16 + hex_digit_value(t.last())
    }
}

/// The hexadecimal text of a number is a nonempty string of lower-case digits, with no leading
/// zero, that reads back as the number.
pub proof fn law_hex_text_reads_back(n: nat)
    ensures
        hex_text(n).len() >= 1,
        forall|i: int| 0 <= i < hex_text(n).len() ==> is_hex_digit(#[trigger] hex_text(n)[i]),
        hex_number(hex_text(n)) == n,
        n > 0 ==> hex_text(n)[0] != '0',
    decreases n,
{
    if n < 16 {
        let t = hex_text(n);
        assert(t.drop_last() =~= Seq::<char>::empty());
        assert(hex_number(t.drop_last()) == 0);
    } else {
        law_hex_text_reads_back(n / 16);
        let t = hex_text(n / 16);
        let u = hex_text(n);
        assert(u == t.push(hex_digit(n % 16)));
        assert(u.drop_last() =~= t);
        assert(forall|i: int| 0 <= i < t.len() ==> u[i] == t[i]);
    }
}

} // verus!
