use vstd::prelude::*;
use crate::cpu::{target_of, Flag, RegisterTarget, Step};

verus! {

/// Abstract contents of the register file.
pub struct RegisterState {
    pub a: u8,
    pub f: u8,
    pub b: u8,
    pub c: u8,
    pub d: u8,
    pub e: u8,
    pub h: u8,
    pub l: u8,
    pub sp: u16,
    pub pc: u16,
}

/// Abstract state of the processor: registers, memory, last opcode, interrupt enable.
pub struct CpuState {
    pub reg: RegisterState,
    pub mem: Seq<u8>,
    pub opcode: u8,
    pub ime: bool,
}

/// The bit that a flag occupies in register F.
pub open spec fn flag_mask(flag: Flag) -> u8 {
    match flag {
        Flag::Z => 0x80,
        Flag::N => 0x40,
        Flag::H => 0x20,
        Flag::C => 0x10,
    }
}

/// Whether `flag` is set in the flag byte `f`.
pub open spec fn flag_of(f: u8, flag: Flag) -> bool {
    f & flag_mask(flag) != 0
}

/// The flag byte `f` with `flag` set to `v` and every other bit kept.
pub open spec fn put_flag(f: u8, flag: Flag, v: bool) -> u8 {
    if v {
        f | flag_mask(flag)
    } else {
        f & !flag_mask(flag)
    }
}

/// The 16-bit word with high byte `hi` and low byte `lo`.
pub open spec fn word(hi: u8, lo: u8) -> u16 {
    (hi * 256 + lo) as u16
}

/// High byte of a word.
pub open spec fn high(v: u16) -> u8 {
    (v / 256) as u8
}

/// Low byte of a word.
pub open spec fn low(v: u16) -> u8 {
    (v % 256) as u8
}

/// `v` reduced modulo 2^16.
pub open spec fn wrap16(v: int) -> u16 {
    (v % 0x10000) as u16
}

/// `v` reduced modulo 2^8.
pub open spec fn wrap8(v: int) -> u8 {
    (v % 0x100) as u8
}

/// `1` when the condition holds, else `0`.
pub open spec fn bit(b: bool) -> int {
    if b {
        1
    } else {
        0
    }
}

impl RegisterState {
    pub open spec fn af(self) -> u16 {
        word(self.a, self.f)
    }

    pub open spec fn bc(self) -> u16 {
        word(self.b, self.c)
    }

    pub open spec fn de(self) -> u16 {
        word(self.d, self.e)
    }

    pub open spec fn hl(self) -> u16 {
        word(self.h, self.l)
    }

    pub open spec fn flag(self, flag: Flag) -> bool {
        flag_of(self.f, flag)
    }

    pub open spec fn with_flag(self, flag: Flag, v: bool) -> RegisterState {
        RegisterState { f: put_flag(self.f, flag, v), ..self }
    }

    /// AF loaded from a word: the low nibble of F always reads as zero.
    pub open spec fn with_af(self, v: u16) -> RegisterState {
        RegisterState { a: high(v), f: (low(v) / 16 * 16) as u8, ..self }
    }

    pub open spec fn with_bc(self, v: u16) -> RegisterState {
        RegisterState { b: high(v), c: low(v), ..self }
    }

    pub open spec fn with_de(self, v: u16) -> RegisterState {
        RegisterState { d: high(v), e: low(v), ..self }
    }

    pub open spec fn with_hl(self, v: u16) -> RegisterState {
        RegisterState { h: high(v), l: low(v), ..self }
    }

    pub open spec fn with_a(self, v: u8) -> RegisterState {
        RegisterState { a: v, ..self }
    }

    pub open spec fn with_sp(self, v: u16) -> RegisterState {
        RegisterState { sp: v, ..self }
    }

    pub open spec fn with_pc(self, v: u16) -> RegisterState {
        RegisterState { pc: v, ..self }
    }
}

/// The registers after the start-up sequence that the boot ROM would run.
pub open spec fn boot_registers() -> RegisterState {
    RegisterState {
        a: 0x01,
        f: 0xB0,
        b: 0x00,
        c: 0x13,
        d: 0x00,
        e: 0xD8,
        h: 0x01,
        l: 0x4D,
        sp: 0xFFFE,
        pc: 0x0100,
    }
}

/// All registers zero.
pub open spec fn zero_registers() -> RegisterState {
    RegisterState { a: 0, f: 0, b: 0, c: 0, d: 0, e: 0, h: 0, l: 0, sp: 0, pc: 0 }
}


impl CpuState {
    pub open spec fn with_reg(self, reg: RegisterState) -> CpuState {
        CpuState { reg, ..self }
    }

    /// Whether memory backs the address.
    pub open spec fn backed(self, addr: int) -> bool {
        0 <= addr < self.mem.len()
    }

    pub open spec fn read(self, addr: u16) -> u8 {
        self.mem[addr as int]
    }

    pub open spec fn write(self, addr: u16, v: u8) -> CpuState {
        CpuState { mem: self.mem.update(addr as int, v), ..self }
    }
}

/// Whether an instruction can read the operand (PC and UNKNOWN are never read).
pub open spec fn target_readable(s: CpuState, t: RegisterTarget) -> bool {
    match t {
        RegisterTarget::PC | RegisterTarget::UNKNOWN => false,
        RegisterTarget::MemoryAdress(addr) => s.backed(addr as int),
        _ => true,
    }
}

/// The value of an operand, widened to 16 bits.
pub open spec fn read_target(s: CpuState, t: RegisterTarget) -> u16 {
    match t {
        RegisterTarget::A => s.reg.a as u16,
        RegisterTarget::B => s.reg.b as u16,
        RegisterTarget::C => s.reg.c as u16,
        RegisterTarget::D => s.reg.d as u16,
        RegisterTarget::E => s.reg.e as u16,
        RegisterTarget::H => s.reg.h as u16,
        RegisterTarget::L => s.reg.l as u16,
        RegisterTarget::AF => s.reg.af(),
        RegisterTarget::BC => s.reg.bc(),
        RegisterTarget::DE => s.reg.de(),
        RegisterTarget::HL => s.reg.hl(),
        RegisterTarget::SP => s.reg.sp,
        RegisterTarget::MemoryAdress(addr) => s.read(addr) as u16,
        RegisterTarget::Value(v) => v,
        RegisterTarget::PC | RegisterTarget::UNKNOWN => 0,
    }
}

/// Whether an instruction can write the operand (immediates, PC and UNKNOWN cannot be written).
pub open spec fn target_writable(s: CpuState, t: RegisterTarget) -> bool {
    match t {
        RegisterTarget::Value(_) | RegisterTarget::PC | RegisterTarget::UNKNOWN => false,
        RegisterTarget::MemoryAdress(addr) => s.backed(addr as int),
        _ => true,
    }
}

/// The state after writing `v` to an operand; 8-bit operands keep the low byte.
pub open spec fn write_target(s: CpuState, t: RegisterTarget, v: u16) -> CpuState {
    match t {
        RegisterTarget::A => s.with_reg(RegisterState { a: low(v), ..s.reg }),
        RegisterTarget::B => s.with_reg(RegisterState { b: low(v), ..s.reg }),
        RegisterTarget::C => s.with_reg(RegisterState { c: low(v), ..s.reg }),
        RegisterTarget::D => s.with_reg(RegisterState { d: low(v), ..s.reg }),
        RegisterTarget::E => s.with_reg(RegisterState { e: low(v), ..s.reg }),
        RegisterTarget::H => s.with_reg(RegisterState { h: low(v), ..s.reg }),
        RegisterTarget::L => s.with_reg(RegisterState { l: low(v), ..s.reg }),
        RegisterTarget::AF => s.with_reg(s.reg.with_af(v)),
        RegisterTarget::BC => s.with_reg(s.reg.with_bc(v)),
        RegisterTarget::DE => s.with_reg(s.reg.with_de(v)),
        RegisterTarget::HL => s.with_reg(s.reg.with_hl(v)),
        RegisterTarget::SP => s.with_reg(s.reg.with_sp(v)),
        RegisterTarget::MemoryAdress(addr) => s.write(addr, low(v)),
        _ => s,
    }
}

/// Whether an 8-bit source operand can be read; `HL` names the cell it points to.
pub open spec fn operand_readable(s: CpuState, t: RegisterTarget) -> bool {
    if t == RegisterTarget::HL {
        s.backed(s.reg.hl() as int)
    } else {
        target_readable(s, t)
    }
}

/// An 8-bit source operand; `HL` names the cell it points to.
pub open spec fn operand8(s: CpuState, t: RegisterTarget) -> u8 {
    if t == RegisterTarget::HL {
        s.read(s.reg.hl())
    } else {
        low(read_target(s, t))
    }
}

/// The destination of a load; `HL` names the cell it points to.
pub open spec fn load_destination(s: CpuState, t: RegisterTarget) -> RegisterTarget {
    if t == RegisterTarget::HL {
        RegisterTarget::MemoryAdress(s.reg.hl())
    } else {
        t
    }
}

pub open spec fn load_ok(s: CpuState, dst: RegisterTarget, src: RegisterTarget) -> bool {
    operand_readable(s, src) && target_writable(s, load_destination(s, dst))
}

/// `LD dst, src`: the 8-bit source copied to the destination.
pub open spec fn load(s: CpuState, dst: RegisterTarget, src: RegisterTarget) -> CpuState {
    write_target(s, load_destination(s, dst), operand8(s, src) as u16)
}

/// The byte at PC, and the state with PC advanced past it.
pub open spec fn fetch(s: CpuState) -> (CpuState, u8) {
    (s.with_reg(s.reg.with_pc(wrap16(s.reg.pc + 1))), s.read(s.reg.pc))
}

/// A little-endian word at PC, and the state with PC advanced past it.
pub open spec fn fetch16(s: CpuState) -> (CpuState, u16) {
    let (t1, lo) = fetch(s);
    let (t2, hi) = fetch(t1);
    (t2, word(hi, lo))
}

pub open spec fn step_ok(s: CpuState, t: RegisterTarget) -> bool {
    target_readable(s, t) && target_writable(s, t)
}

/// Increment of an operand by one, modulo its width; with `set_flags`, Z, N and H follow.
pub open spec fn inc_target(s: CpuState, t: RegisterTarget, set_flags: bool) -> CpuState {
    let v = read_target(s, t);
    let s1 = write_target(s, t, wrap16(v + 1));
    if set_flags {
        s1.with_reg(
            s1.reg.with_flag(Flag::Z, read_target(s1, t) == 0).with_flag(Flag::N, false).with_flag(
                Flag::H,
                v % 16 == 15,
            ),
        )
    } else {
        s1
    }
}

/// Decrement of an operand by one, modulo its width; with `set_flags`, Z and N follow and H
/// is set when the low nibble borrows (it was 0).
pub open spec fn dec_target(s: CpuState, t: RegisterTarget, set_flags: bool) -> CpuState {
    let v = read_target(s, t);
    let s1 = write_target(s, t, wrap16(v - 1));
    if set_flags {
        s1.with_reg(
            s1.reg.with_flag(Flag::Z, read_target(s1, t) == 0).with_flag(Flag::N, true).with_flag(
                Flag::H,
                v % 16 == 0,
            ),
        )
    } else {
        s1
    }
}

/// The carry flag as a number.
pub open spec fn carry_in(s: CpuState) -> int {
    bit(s.reg.flag(Flag::C))
}

/// `ADD A, x`, and with `carry` `ADC A, x` (the carry flag added as well): Z from the result,
/// N cleared, H from a carry out of bit 3, C from a carry out of bit 7.
pub open spec fn add_a(s: CpuState, t: RegisterTarget, carry: bool) -> CpuState {
    let a = s.reg.a;
    let v = operand8(s, t);
    let c = if carry {
        carry_in(s)
    } else {
        0
    };
    let sum = a + v + c;
    let r = s.reg.with_flag(Flag::Z, wrap8(sum) == 0).with_flag(Flag::N, false).with_flag(
        Flag::H,
        a % 16 + v % 16 + c > 15,
    ).with_flag(Flag::C, sum > 255);
    s.with_reg(r.with_a(wrap8(sum)))
}

/// `SUB A, x`, and with `carry` `SBC A, x` (the carry flag subtracted as well): Z from the
/// result, N set, H from a borrow out of bit 4, C from a borrow out of bit 8.
pub open spec fn sub_a(s: CpuState, t: RegisterTarget, carry: bool) -> CpuState {
    let a = s.reg.a;
    let v = operand8(s, t);
    let c = if carry {
        carry_in(s)
    } else {
        0
    };
    let r = s.reg.with_flag(Flag::Z, wrap8(a - v - c) == 0).with_flag(Flag::H, a % 16 < v % 16 + c).with_flag(
        Flag::N,
        true,
    ).with_flag(Flag::C, a < v + c);
    s.with_reg(r.with_a(wrap8(a - v - c)))
}

/// `CP A, x`: the flags of `SUB A, x`, with A kept.
pub open spec fn cp_a(s: CpuState, t: RegisterTarget) -> CpuState {
    let r = sub_a(s, t, false);
    r.with_reg(r.reg.with_a(s.reg.a))
}

/// `ADD HL, rr`: N cleared, H from bit 11, C from bit 15; Z kept.
pub open spec fn add_hl(s: CpuState, t: RegisterTarget) -> CpuState {
    let hl = s.reg.hl();
    let v = read_target(s, t);
    let r = s.reg.with_flag(Flag::N, false).with_flag(Flag::H, hl % 4096 + v % 4096 >= 4096).with_flag(
        Flag::C,
        hl + v > 0xFFFF,
    );
    s.with_reg(r.with_hl(wrap16(hl + v)))
}

/// Flags of a logical operation on A: Z from the result, N and C cleared, H as given.
pub open spec fn logic_flags(r: RegisterState, result: u8, h: bool) -> RegisterState {
    r.with_a(result).with_flag(Flag::Z, result == 0).with_flag(Flag::N, false).with_flag(
        Flag::C,
        false,
    ).with_flag(Flag::H, h)
}

pub open spec fn and_a(s: CpuState, t: RegisterTarget) -> CpuState {
    s.with_reg(logic_flags(s.reg, s.reg.a & operand8(s, t), true))
}

pub open spec fn xor_a(s: CpuState, t: RegisterTarget) -> CpuState {
    s.with_reg(logic_flags(s.reg, s.reg.a ^ operand8(s, t), false))
}

pub open spec fn or_a(s: CpuState, t: RegisterTarget) -> CpuState {
    s.with_reg(logic_flags(s.reg, s.reg.a | operand8(s, t), false))
}

/// `RLCA`: A rotated left; bit 7 goes to bit 0 and to C; Z, N and H cleared.
pub open spec fn rlca(s: CpuState) -> CpuState {
    let a = s.reg.a;
    let r = s.reg.with_flag(Flag::Z, false).with_flag(Flag::N, false).with_flag(Flag::C, a >= 128).with_flag(
        Flag::H,
        false,
    );
    s.with_reg(r.with_a(wrap8(a * 2 + a / 128)))
}

/// `RLA`: A rotated left through the carry; Z, N and H cleared.
pub open spec fn rla(s: CpuState) -> CpuState {
    let a = s.reg.a;
    let r = s.reg.with_a(wrap8(a * 2 + carry_in(s)));
    s.with_reg(
        r.with_flag(Flag::Z, false).with_flag(Flag::N, false).with_flag(Flag::C, a >= 128).with_flag(
            Flag::H,
            false,
        ),
    )
}

/// `RRCA`: A rotated right; bit 0 goes to bit 7 and to C; Z, N and H cleared.
pub open spec fn rrca(s: CpuState) -> CpuState {
    let a = s.reg.a;
    let r = s.reg.with_flag(Flag::Z, false).with_flag(Flag::N, false).with_flag(Flag::H, false).with_flag(
        Flag::C,
        a % 2 == 1,
    );
    s.with_reg(r.with_a((a / 2 + (a % 2) * 128) as u8))
}

/// `RRA`: A rotated right through the carry; Z, N and H cleared.
pub open spec fn rra(s: CpuState) -> CpuState {
    let a = s.reg.a;
    let r = s.reg.with_flag(Flag::C, a % 2 == 1).with_a((a / 2 + carry_in(s) * 128) as u8);
    s.with_reg(
        r.with_flag(Flag::Z, false).with_flag(Flag::N, false).with_flag(Flag::H, false),
    )
}

/// The correction that `DAA` applies to the low digit.
pub open spec fn daa_low(s: CpuState) -> int {
    if s.reg.flag(Flag::H) || (!s.reg.flag(Flag::N) && s.reg.a % 16 > 9) {
        6
    } else {
        0
    }
}

/// The correction that `DAA` applies to the high digit.
pub open spec fn daa_high(s: CpuState) -> int {
    if s.reg.flag(Flag::C) || (!s.reg.flag(Flag::N) && s.reg.a > 0x99) {
        0x60
    } else {
        0
    }
}

/// `DAA`: A corrected to packed BCD after an addition (N clear) or a subtraction (N set).
pub open spec fn daa(s: CpuState) -> CpuState {
    let adjust = daa_low(s) + daa_high(s);
    let res = if s.reg.flag(Flag::N) {
        wrap8(s.reg.a - adjust)
    } else {
        wrap8(s.reg.a + adjust)
    };
    s.with_reg(
        s.reg.with_a(res).with_flag(Flag::Z, res == 0).with_flag(Flag::H, false).with_flag(
            Flag::C,
            daa_high(s) != 0,
        ),
    )
}

/// A byte read as a two's-complement number.
pub open spec fn signed8(b: u8) -> int {
    if b < 128 {
        b as int
    } else {
        b - 256
    }
}

/// `JR cond, e`: the displacement is always consumed; when `cond` holds, PC moves by it.
pub open spec fn relative_jump(s: CpuState, cond: bool) -> CpuState {
    let (t, e) = fetch(s);
    if cond {
        t.with_reg(t.reg.with_pc(wrap16(t.reg.pc + signed8(e))))
    } else {
        t
    }
}

pub open spec fn pop_byte_ok(s: CpuState) -> bool {
    s.reg.sp < 0xFFFF && s.backed(s.reg.sp as int)
}

/// The byte at SP, and the state with SP raised by one.
pub open spec fn pop_byte(s: CpuState) -> (CpuState, u8) {
    (s.with_reg(s.reg.with_sp((s.reg.sp + 1) as u16)), s.read(s.reg.sp))
}

pub open spec fn pop_ok(s: CpuState) -> bool {
    s.reg.sp + 2 <= 0xFFFF && s.backed(s.reg.sp + 1)
}

/// The little-endian word at SP, and the state with SP raised by two.
pub open spec fn pop_word(s: CpuState) -> (CpuState, u16) {
    (
        s.with_reg(s.reg.with_sp((s.reg.sp + 2) as u16)),
        word(s.read((s.reg.sp + 1) as u16), s.read(s.reg.sp)),
    )
}

pub open spec fn push_byte_ok(s: CpuState) -> bool {
    s.reg.sp >= 1 && s.backed(s.reg.sp - 1)
}

/// SP lowered by one and `v` stored where it then points.
pub open spec fn push_byte(s: CpuState, v: u8) -> CpuState {
    let sp = (s.reg.sp - 1) as u16;
    s.with_reg(s.reg.with_sp(sp)).write(sp, v)
}

pub open spec fn push_ok(s: CpuState) -> bool {
    s.reg.sp >= 2 && s.backed(s.reg.sp - 1)
}

/// SP lowered by two, the high byte of `v` at SP + 1 and the low byte at SP.
pub open spec fn push_word(s: CpuState, v: u16) -> CpuState {
    let sp = s.reg.sp;
    CpuState {
        reg: s.reg.with_sp((sp - 2) as u16),
        mem: s.mem.update(sp - 1, high(v)).update(sp - 2, low(v)),
        ..s
    }
}

/// `RST n`: PC pushed, then PC set to `addr`.
pub open spec fn rst(s: CpuState, addr: u16) -> CpuState {
    let t = push_word(s, s.reg.pc);
    t.with_reg(t.reg.with_pc(addr))
}


/// `LD r, n`: the byte after the opcode loaded into the operand.
pub open spec fn load_immediate(t: CpuState, dst: RegisterTarget) -> CpuState {
    let (u, n) = fetch(t);
    load(u, dst, RegisterTarget::Value(n as u16))
}

/// `LD rr, nn` for BC, DE or HL.
pub open spec fn load_pair_immediate(t: CpuState, dst: RegisterTarget) -> CpuState {
    let (u, v) = fetch16(t);
    write_target(u, dst, v)
}

/// `JP nn`.
pub open spec fn jump(t: CpuState) -> CpuState {
    let (u, v) = fetch16(t);
    u.with_reg(u.reg.with_pc(v))
}

/// `JP cond, nn`: when the condition fails the address bytes are not consumed.
pub open spec fn jump_if(t: CpuState, cond: bool) -> CpuState {
    if cond {
        jump(t)
    } else {
        t
    }
}

/// `RET cond`: when the condition holds, PC is popped from the stack.
pub open spec fn return_if(t: CpuState, cond: bool) -> CpuState {
    if cond {
        let (u, v) = pop_word(t);
        u.with_reg(u.reg.with_pc(v))
    } else {
        t
    }
}

/// `POP rr` for BC, DE or HL.
pub open spec fn pop_pair(t: CpuState, dst: RegisterTarget) -> CpuState {
    let (u, v) = pop_word(t);
    write_target(u, dst, v)
}

/// An 8-bit arithmetic or logical instruction whose operand is the byte after the opcode.
pub open spec fn alu_immediate(t: CpuState, kind: u8) -> CpuState {
    let (u, n) = fetch(t);
    alu(u, kind, RegisterTarget::Value(n as u16))
}

/// The eight 8-bit operations on A, by the bits 3 to 5 of their opcode.
pub open spec fn alu(t: CpuState, kind: u8, x: RegisterTarget) -> CpuState {
    if kind == 0 {
        add_a(t, x, false)
    } else if kind == 1 {
        add_a(t, x, true)
    } else if kind == 2 {
        sub_a(t, x, false)
    } else if kind == 3 {
        sub_a(t, x, true)
    } else if kind == 4 {
        and_a(t, x)
    } else if kind == 5 {
        xor_a(t, x)
    } else if kind == 6 {
        or_a(t, x)
    } else {
        cp_a(t, x)
    }
}

/// `SP + n` with the unsigned byte after the opcode: Z and N cleared, H and C from bits 3 and 7.
pub open spec fn sp_plus_immediate_flags(u: CpuState, n: u8) -> RegisterState {
    let sp = u.reg.sp;
    u.reg.with_flag(Flag::Z, false).with_flag(Flag::N, false).with_flag(
        Flag::H,
        sp % 16 + n % 16 >= 16,
    ).with_flag(Flag::C, sp % 256 + n >= 256)
}

/// `LD (nn), SP`: SP stored little-endian at the address after the opcode.
pub open spec fn store_sp(t: CpuState) -> CpuState {
    let (u, addr) = fetch16(t);
    u.write(addr, low(u.reg.sp)).write((addr + 1) as u16, high(u.reg.sp))
}

/// `POP AF`: A from (SP), F from (SP + 1), both in full; SP raised by two.
pub open spec fn pop_af(t: CpuState) -> CpuState {
    let sp = t.reg.sp;
    t.with_reg(
        RegisterState { a: t.read(sp), f: t.read(wrap16(sp + 1)), sp: wrap16(sp + 2), ..t.reg },
    )
}

/// `PUSH AF`: A at SP - 1, F at SP - 2; SP lowered by two.
pub open spec fn push_af(t: CpuState) -> CpuState {
    let sp = t.reg.sp;
    CpuState {
        reg: t.reg.with_sp(wrap16(sp - 2)),
        mem: t.mem.update(wrap16(sp - 1) as int, t.reg.a).update(wrap16(sp - 2) as int, t.reg.f),
        ..t
    }
}

/// Opcodes `0x00` to `0x3F`; `t` is the state after the opcode was fetched.
#[verifier::opaque]
pub open spec fn execute_low(t: CpuState, op: u8) -> (CpuState, Step) {
    let hl = t.reg.hl();
    let z = t.reg.flag(Flag::Z);
    let c = t.reg.flag(Flag::C);
    let next = match op {
        0x00 => t,
        0x01 => load_pair_immediate(t, RegisterTarget::BC),
        0x02 => t.write(t.reg.bc(), t.reg.a),
        0x03 => inc_target(t, RegisterTarget::BC, false),
        0x04 => inc_target(t, RegisterTarget::B, true),
        0x05 => dec_target(t, RegisterTarget::B, true),
        0x06 => load_immediate(t, RegisterTarget::B),
        0x07 => rlca(t),
        0x08 => store_sp(t),
        0x09 => add_hl(t, RegisterTarget::BC),
        0x0A => load(t, RegisterTarget::A, RegisterTarget::MemoryAdress(t.reg.bc())),
        0x0B => dec_target(t, RegisterTarget::BC, false),
        0x0C => inc_target(t, RegisterTarget::C, true),
        0x0D => dec_target(t, RegisterTarget::C, true),
        0x0E => load_immediate(t, RegisterTarget::C),
        0x0F => rrca(t),
        0x10 => t,
        0x11 => load_pair_immediate(t, RegisterTarget::DE),
        0x12 => t.write(t.reg.de(), t.reg.a),
        0x13 => inc_target(t, RegisterTarget::DE, false),
        0x14 => inc_target(t, RegisterTarget::D, true),
        0x15 => dec_target(t, RegisterTarget::D, true),
        0x16 => load_immediate(t, RegisterTarget::D),
        0x17 => rla(t),
        0x18 => relative_jump(t, true),
        0x19 => add_hl(t, RegisterTarget::DE),
        0x1A => load(t, RegisterTarget::A, RegisterTarget::MemoryAdress(t.reg.de())),
        0x1B => dec_target(t, RegisterTarget::DE, false),
        0x1C => inc_target(t, RegisterTarget::E, true),
        0x1D => dec_target(t, RegisterTarget::E, true),
        0x1E => load_immediate(t, RegisterTarget::E),
        0x1F => rra(t),
        0x20 => relative_jump(t, !z),
        0x21 => load_pair_immediate(t, RegisterTarget::HL),
        0x22 => inc_target(t.write(hl, t.reg.a), RegisterTarget::HL, false),
        0x23 => inc_target(t, RegisterTarget::HL, false),
        0x24 => inc_target(t, RegisterTarget::H, true),
        0x25 => dec_target(t, RegisterTarget::H, true),
        0x26 => load_immediate(t, RegisterTarget::H),
        0x27 => daa(t),
        0x28 => relative_jump(t, z),
        0x29 => add_hl(t, RegisterTarget::HL),
        0x2A => inc_target(load(t, RegisterTarget::A, RegisterTarget::MemoryAdress(hl)), RegisterTarget::HL, false),
        0x2B => dec_target(t, RegisterTarget::HL, false),
        0x2C => inc_target(t, RegisterTarget::L, true),
        0x2D => dec_target(t, RegisterTarget::L, true),
        0x2E => load_immediate(t, RegisterTarget::L),
        0x2F => t.with_reg(t.reg.with_a(!t.reg.a).with_flag(Flag::N, true).with_flag(Flag::H, true)),
        0x30 => relative_jump(t, !c),
        0x31 => load_pair_immediate(t, RegisterTarget::SP),
        0x32 => dec_target(t.write(hl, t.reg.a), RegisterTarget::HL, false),
        0x33 => inc_target(t, RegisterTarget::SP, false),
        0x34 => inc_target(t, RegisterTarget::MemoryAdress(hl), true),
        0x35 => dec_target(t, RegisterTarget::MemoryAdress(hl), true),
        0x36 => load_immediate(t, RegisterTarget::HL),
        0x37 => t.with_reg(t.reg.with_flag(Flag::N, false).with_flag(Flag::H, false).with_flag(Flag::C, true)),
        0x38 => relative_jump(t, c),
        0x39 => add_hl(t, RegisterTarget::SP),
        0x3A => inc_target(load(t, RegisterTarget::A, RegisterTarget::MemoryAdress(hl)), RegisterTarget::HL, false),
        0x3B => dec_target(t, RegisterTarget::SP, false),
        0x3C => inc_target(t, RegisterTarget::A, true),
        0x3D => dec_target(t, RegisterTarget::A, true),
        0x3E => load_immediate(t, RegisterTarget::A),
        _ => t.with_reg(t.reg.with_flag(Flag::C, !c)),
    };
    (next, if op == 0x10 { Step::Stop } else { Step::Continue })
}

/// Opcodes `0xC0` to `0xFF`; `t` is the state after the opcode was fetched.
#[verifier::opaque]
pub open spec fn execute_high(t: CpuState, op: u8) -> (CpuState, Step) {
    let z = t.reg.flag(Flag::Z);
    let c = t.reg.flag(Flag::C);
    match op {
        0xc0 => (return_if(t, !z), Step::Continue),
        0xc1 => (pop_pair(t, RegisterTarget::BC), Step::Continue),
        0xc2 => (jump_if(t, !z), Step::Continue),
        0xc3 => (jump(t), Step::Continue),
        0xc4 => (t, Step::Unfinished(op)),
        0xc5 => (push_word(t, t.reg.bc()), Step::Continue),
        0xc6 => (alu_immediate(t, 1), Step::Continue),
        0xc7 => (rst(t, 0x00), Step::Continue),
        0xc8 => (return_if(t, !c), Step::Continue),
        0xca => (jump_if(t, z), Step::Continue),
        0xcb => {
            let (u0, op2) = fetch(t);
            let u = CpuState { opcode: op2, ..u0 };
            if op2 == 0x7c {
                (
                    u.with_reg(
                        u.reg.with_flag(Flag::Z, u.reg.h < 128).with_flag(Flag::N, false).with_flag(
                            Flag::H,
                            false,
                        ),
                    ),
                    Step::Continue,
                )
            } else {
                (u, Step::UnknownPrefixedOpcode(op2))
            }
        },
        0xcf => (rst(t, 0x08), Step::Continue),
        0xd0 => (return_if(t, !c), Step::Continue),
        0xd1 => (pop_pair(t, RegisterTarget::DE), Step::Continue),
        0xd2 => (jump_if(t, !c), Step::Continue),
        0xd5 => (push_word(t, t.reg.de()), Step::Continue),
        0xd6 => (alu_immediate(t, 3), Step::Continue),
        0xd7 => (rst(t, 0x10), Step::Continue),
        0xd8 => (return_if(t, c), Step::Continue),
        0xda => (jump_if(t, c), Step::Continue),
        0xdf => (rst(t, 0x18), Step::Continue),
        0xe0 => {
            let (u, n) = fetch(t);
            (load(u, RegisterTarget::MemoryAdress((0xff00 + n) as u16), RegisterTarget::A), Step::Continue)
        },
        0xe1 => (pop_pair(t, RegisterTarget::HL), Step::Continue),
        0xe5 => (push_word(t, t.reg.hl()), Step::Continue),
        0xe6 => (alu_immediate(t, 4), Step::Continue),
        0xe7 => (rst(t, 0x20), Step::Continue),
        0xe8 => {
            let (u, n) = fetch(t);
            (u.with_reg(sp_plus_immediate_flags(u, n).with_sp(wrap16(u.reg.sp + n))), Step::Continue)
        },
        0xef => (rst(t, 0x28), Step::Continue),
        0xf0 => {
            let (u, n) = fetch(t);
            (load(u, RegisterTarget::A, RegisterTarget::MemoryAdress((0xff00 + n) as u16)), Step::Continue)
        },
        0xf1 => (pop_af(t), Step::Continue),
        0xf3 => (CpuState { ime: false, ..t }, Step::Continue),
        0xf5 => (push_af(t), Step::Continue),
        0xf6 => (alu_immediate(t, 6), Step::Continue),
        0xf7 => (rst(t, 0x30), Step::Continue),
        0xf8 => {
            let (u, n) = fetch(t);
            (u.with_reg(sp_plus_immediate_flags(u, n).with_hl(wrap16(u.reg.sp + n))), Step::Continue)
        },
        0xfb => (CpuState { ime: true, ..t }, Step::Continue),
        0xfe => (alu_immediate(t, 7), Step::Continue),
        0xff => (rst(t, 0x38), Step::Continue),
        _ => (t, Step::UnknownOpcode(op)),
    }
}

/// The effect of the instruction with opcode `op`; `t` is the state after the opcode was
/// fetched and recorded.
pub open spec fn execute(t: CpuState, op: u8) -> (CpuState, Step) {
    if op < 0x40 {
        execute_low(t, op)
    } else if op < 0x80 {
        if op == 0x76 {
            (t, Step::Unfinished(op))
        } else {
            (load(t, target_of((op / 8) % 8), target_of(op % 8)), Step::Continue)
        }
    } else if op < 0xc0 {
        (alu(t, (op / 8) % 8, target_of(op % 8)), Step::Continue)
    } else {
        execute_high(t, op)
    }
}

/// Whether the instruction with opcode `op` runs in state `t` (PC past the opcode) without
/// touching an address that memory does not back or moving SP out of its range.
pub open spec fn op_ok(t: CpuState, op: u8) -> bool {
    let pc = t.reg.pc as int;
    let one = t.backed(pc);
    let two = t.backed(pc + 1);
    let hl = t.backed(t.reg.hl() as int);
    let z = t.reg.flag(Flag::Z);
    let c = t.reg.flag(Flag::C);
    if 0x40 <= op < 0x80 {
        op == 0x76 || load_ok(t, target_of((op / 8) % 8), target_of(op % 8))
    } else if 0x80 <= op < 0xc0 {
        operand_readable(t, target_of(op % 8))
    } else {
        match op {
            0x01 | 0x11 | 0x21 | 0x31 | 0xc3 => two,
            0x02 | 0x0A => t.backed(t.reg.bc() as int),
            0x12 | 0x1A => t.backed(t.reg.de() as int),
            0x22 | 0x2A | 0x32 | 0x3A | 0x34 | 0x35 => hl,
            0x06 | 0x0E | 0x16 | 0x1E | 0x26 | 0x2E | 0x3E | 0x18 | 0x20 | 0x28 | 0x30 | 0x38
            | 0xc6 | 0xd6 | 0xe6 | 0xf6 | 0xfe | 0xe8 | 0xf8 | 0xcb => one,
            0x36 => one && hl,
            0x08 => two && t.backed(fetch16(t).1 + 1),
            0xc0 => !z ==> pop_ok(t),
            0xc8 | 0xd0 => !c ==> pop_ok(t),
            0xd8 => c ==> pop_ok(t),
            0xc1 | 0xd1 | 0xe1 => pop_ok(t),
            0xc2 => !z ==> two,
            0xca => z ==> two,
            0xd2 => !c ==> two,
            0xda => c ==> two,
            0xc5 | 0xd5 | 0xe5 | 0xc7 | 0xcf | 0xd7 | 0xdf | 0xe7 | 0xef | 0xf7 | 0xff => push_ok(t),
            0xe0 | 0xf0 => one && t.backed(0xff00 + t.read(t.reg.pc)),
            0xf1 => t.backed(t.reg.sp as int) && t.backed(wrap16(t.reg.sp + 1) as int),
            0xf5 => t.backed(wrap16(t.reg.sp - 1) as int) && t.backed(wrap16(t.reg.sp - 2) as int),
            _ => true,
        }
    }
}

/// Whether the next instruction cannot run: its opcode or an operand lies where memory does
/// not reach, it would touch such an address, or it would move SP out of its range.
#[verifier::opaque]
pub open spec fn faults(s: CpuState) -> bool {
    !s.backed(s.reg.pc as int) || !op_ok(fetch(s).0, fetch(s).1)
}

/// One instruction: the opcode is fetched, recorded and executed.
#[verifier::opaque]
pub open spec fn step(s: CpuState) -> (CpuState, Step) {
    let (t, op) = fetch(s);
    execute(CpuState { opcode: op, ..t }, op)
}


/// One hexadecimal digit, in lower case.
pub open spec fn hex_digit(d: nat) -> char {
    if d < 10 {
        (48 + d) as char
    } else {
        (87 + d) as char
    }
}

/// A number in lower-case hexadecimal, without leading zeros (`0` for zero).
pub open spec fn hex_text(n: nat) -> Seq<char>
    decreases n,
{
    if n < 16 {
        seq![hex_digit(n)]
    } else {
        hex_text(n / 16).push(hex_digit(n % 16))
    }
}

/// The register summary shown by the debugger: PC, the byte at PC, then every register.
pub open spec fn register_debug_text(r: RegisterState, op: u8) -> Seq<char> {
    "PC: "@ + hex_text(r.pc as nat) + ", OpCode "@ + hex_text(op as nat) + " \nRegisters \na: "@
        + hex_text(r.a as nat) + ", f: "@ + hex_text(r.f as nat) + " \nb: "@ + hex_text(r.b as nat)
        + " c: "@ + hex_text(r.c as nat) + " \nd: "@ + hex_text(r.d as nat) + " e:"@ + hex_text(
        r.e as nat,
    ) + " \nh:"@ + hex_text(r.h as nat) + " l: "@ + hex_text(r.l as nat) + " \nsp: "@ + hex_text(
        r.sp as nat,
    ) + " pc: "@ + hex_text(r.pc as nat)
}

/// Memory after loading a cartridge image: its first 0x8000 bytes, zeros above.
pub open spec fn loaded_memory(rom: Seq<u8>) -> Seq<u8> {
    Seq::new(65535, |i: int| if i < 0x8000 { rom[i] } else { 0 })
}

} // verus!
