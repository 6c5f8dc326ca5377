use vstd::prelude::*;
use crate::memory::{Memory, MEMORY_SIZE};
use vstd::string::StringExecFns;
use crate::bits::{
    adjust_byte, lemma_adjust, lemma_boot_flags, lemma_carry12, lemma_low_cast,
    lemma_low_nibble, lemma_nibble, lemma_opcode_fields, lemma_relative, lemma_rotate,
    lemma_sp_offset, lemma_split_bits, lemma_word_bits, lemma_word_parts, lemma_wrap16,
    lemma_wrap8,
};
use crate::semantics::{
    add_a, add_hl, alu, and_a, boot_registers, carry_in, cp_a, daa, dec_target, execute_high,
    execute_low, faults, fetch, hex_digit, hex_text, flag_mask, inc_target, load, load_ok, loaded_memory, op_ok,
    operand8, operand_readable, or_a, pop_af, pop_byte, pop_byte_ok, pop_ok, pop_word, push_af,
    push_byte, push_byte_ok, push_ok, push_word, read_target, register_debug_text,
    relative_jump, rla, rlca, rra, rrca, rst, sp_plus_immediate_flags, step, step_ok,
    sub_a, target_readable, target_writable, word, wrap16, write_target, xor_a,
    zero_registers, CpuState, RegisterState,
};

verus! {

/// An operand of an instruction: a register, a register pair, a memory cell or an immediate.
#[derive(PartialEq, Eq, Structural, PartialOrd, Copy, Clone, Debug)]
pub enum RegisterTarget {
    A,
    B,
    C,
    D,
    E,
    H,
    L,
    AF,
    BC,
    DE,
    HL,
    SP,
    PC,
    MemoryAdress(u16),
    Value(u16),
    UNKNOWN,
}

/// The operand that a 3-bit register field of an opcode selects (6 selects `(HL)`).
pub open spec fn target_of(code: u8) -> RegisterTarget {
    if code == 0x7 {
        RegisterTarget::A
    } else if code == 0x0 {
        RegisterTarget::B
    } else if code == 0x1 {
        RegisterTarget::C
    } else if code == 0x2 {
        RegisterTarget::D
    } else if code == 0x3 {
        RegisterTarget::E
    } else if code == 0x4 {
        RegisterTarget::H
    } else if code == 0x5 {
        RegisterTarget::L
    } else if code == 0x6 {
        RegisterTarget::HL
    } else {
        RegisterTarget::UNKNOWN
    }
}

impl From<u8> for RegisterTarget {
    fn from(orig: u8) -> (r: Self) {
        match orig {
            0x7 => RegisterTarget::A,
            0x0 => RegisterTarget::B,
            0x1 => RegisterTarget::C,
            0x2 => RegisterTarget::D,
            0x3 => RegisterTarget::E,
            0x4 => RegisterTarget::H,
            0x5 => RegisterTarget::L,
            0x6 => RegisterTarget::HL,
            _ => RegisterTarget::UNKNOWN,
        }
    }
}

impl vstd::std_specs::convert::FromSpecImpl<u8> for RegisterTarget {
    open spec fn obeys_from_spec() -> bool {
        true
    }

    open spec fn from_spec(v: u8) -> RegisterTarget {
        target_of(v)
    }
}

/// The four condition flags held in the upper nibble of register F.
pub enum Flag {
    /// Zero: the result of an operation was zero, or `CP` found equal values.
    Z,
    /// Subtract: the last arithmetic instruction subtracted.
    N,
    /// Half carry: a carry left the lower nibble.
    H,
    /// Carry: a carry left the result, or `CP` found A to be the smaller value.
    C,
}

impl Flag {
    /// The bit of F that this flag occupies.
    pub fn og(self) -> (r: u8)
        ensures
            r == flag_mask(self),
    {
        match self {
            Flag::Z => 0b1000_0000,
            Flag::N => 0b0100_0000,
            Flag::H => 0b0010_0000,
            Flag::C => 0b0001_0000,
        }
    }

    /// Every bit of F but the one this flag occupies.
    pub fn bw(self) -> (r: u8)
        ensures
            r == !flag_mask(self),
    {
        !self.og()
    }
}

/// The register file: eight 8-bit registers, the stack pointer and the program counter.
#[derive(Debug, Copy, Clone)]
pub struct Registers {
    a: u8,
    f: u8,
    b: u8,
    c: u8,
    d: u8,
    e: u8,
    h: u8,
    l: u8,
    sp: u16,
    pc: u16,
}

impl View for Registers {
    type V = RegisterState;

    closed spec fn view(&self) -> RegisterState {
        RegisterState {
            a: self.a,
            f: self.f,
            b: self.b,
            c: self.c,
            d: self.d,
            e: self.e,
            h: self.h,
            l: self.l,
            sp: self.sp,
            pc: self.pc,
        }
    }
}

impl Registers {
    /// All registers zero.
    pub fn new() -> (r: Registers)
        ensures
            r@ == zero_registers(),
    {
        Registers { a: 0, f: 0, b: 0, c: 0, d: 0, e: 0, h: 0, l: 0, sp: 0, pc: 0 }
    }

    pub fn get_flag(&self, f: Flag) -> (r: bool)
        ensures
            r == self@.flag(f),
    {
        (self.f & f.og()) != 0
    }

    pub fn set_flag(&mut self, f: Flag, v: bool)
        ensures
            final(self)@ == old(self)@.with_flag(f, v),
    {
        if v {
            self.f |= f.og();
        } else {
            self.f &= f.bw();
        }
    }

    pub fn get_af(&self) -> (r: u16)
        ensures
            r == self@.af(),
    {
        proof {
            lemma_word_bits(self.a, self.f);
        }
        (self.a as u16) << 8 | (self.f as u16)
    }

    pub fn get_bc(&self) -> (r: u16)
        ensures
            r == self@.bc(),
    {
        proof {
            lemma_word_bits(self.b, self.c);
        }
        (self.b as u16) << 8 | (self.c as u16)
    }

    pub fn get_de(&self) -> (r: u16)
        ensures
            r == self@.de(),
    {
        proof {
            lemma_word_bits(self.d, self.e);
        }
        (self.d as u16) << 8 | (self.e as u16)
    }

    pub fn get_hl(&self) -> (r: u16)
        ensures
            r == self@.hl(),
    {
        proof {
            lemma_word_bits(self.h, self.l);
        }
        (self.h as u16) << 8 | (self.l as u16)
    }

    pub fn get_sp(&self) -> (r: u16)
        ensures
            r == self@.sp,
    {
        self.sp
    }

    pub fn get_pc(&self) -> (r: u16)
        ensures
            r == self@.pc,
    {
        self.pc
    }

    /// Loads AF; the low nibble of F is not stored.
    pub fn set_af(&mut self, input: u16)
        ensures
            final(self)@ == old(self)@.with_af(input),
    {
        proof {
            lemma_split_bits(input);
        }
        self.a = (input >> 8) as u8;
        self.f = (input & 0x00f0) as u8;
    }

    pub fn set_bc(&mut self, input: u16)
        ensures
            final(self)@ == old(self)@.with_bc(input),
    {
        proof {
            lemma_split_bits(input);
        }
        self.b = (input >> 8) as u8;
        self.c = (input & 0x00ff) as u8;
    }

    pub fn set_de(&mut self, input: u16)
        ensures
            final(self)@ == old(self)@.with_de(input),
    {
        proof {
            lemma_split_bits(input);
        }
        self.d = (input >> 8) as u8;
        self.e = (input & 0x00ff) as u8;
    }

    pub fn set_hl(&mut self, input: u16)
        ensures
            final(self)@ == old(self)@.with_hl(input),
    {
        proof {
            lemma_split_bits(input);
        }
        self.h = (input >> 8) as u8;
        self.l = (input & 0x00ff) as u8;
    }
}

/// What one call of `Cpu::tick` ended in.
#[derive(PartialEq, Eq, Structural, Copy, Clone, Debug)]
pub enum Step {
    /// The instruction ran; the processor goes on.
    Continue,
    /// `STOP` ran: the program ends with status 1.
    Stop,
    /// The opcode has no implementation: the program dumps the registers and ends with status 0.
    UnknownOpcode(u8),
    /// The `CB`-prefixed opcode has no implementation: dump and end with status 0.
    UnknownPrefixedOpcode(u8),
    /// The opcode is recognised but its implementation is still to be written.
    Unfinished(u8),
    /// The instruction would touch an address outside memory or move SP past its range;
    /// nothing was changed.
    Fault,
}

/// The processor: registers, working memory, the last opcode fetched and the interrupt
/// master enable.
#[derive(Debug, Copy, Clone)]
pub struct Cpu {
    reg: Registers,
    opcode: u8,
    mem: Memory,
    interupts_enabled: bool,
}

impl View for Cpu {
    type V = CpuState;

    closed spec fn view(&self) -> CpuState {
        CpuState { reg: self.reg@, mem: self.mem@, opcode: self.opcode, ime: self.interupts_enabled }
    }
}

impl Cpu {
    /// Working memory always holds `MEMORY_SIZE` bytes.
    pub proof fn lemma_memory_size(&self)
        ensures
            self@.mem.len() == MEMORY_SIZE,
    {
        broadcast use vstd::array::array_len_matches_n;

    }

    fn get_target(&self, register: RegisterTarget) -> (r: u16)
        requires
            target_readable(self@, register),
        ensures
            r == read_target(self@, register),
    {
        proof {
            self.lemma_memory_size();
        }
        match register {
            RegisterTarget::A => self.reg.a as u16,
            RegisterTarget::B => self.reg.b as u16,
            RegisterTarget::C => self.reg.c as u16,
            RegisterTarget::D => self.reg.d as u16,
            RegisterTarget::E => self.reg.e as u16,
            RegisterTarget::H => self.reg.h as u16,
            RegisterTarget::L => self.reg.l as u16,
            RegisterTarget::HL => self.reg.get_hl(),
            RegisterTarget::AF => self.reg.get_af(),
            RegisterTarget::BC => self.reg.get_bc(),
            RegisterTarget::DE => self.reg.get_de(),
            RegisterTarget::SP => self.reg.sp,
            RegisterTarget::MemoryAdress(adress) => self.mem.get(adress) as u16,
            RegisterTarget::Value(val) => val,
            RegisterTarget::PC | RegisterTarget::UNKNOWN => vstd::pervasive::unreached(),
        }
    }

    fn set_target(&mut self, register: RegisterTarget, value: u16)
        requires
            target_writable(old(self)@, register),
        ensures
            final(self)@ == write_target(old(self)@, register, value),
    {
        proof {
            self.lemma_memory_size();
            lemma_low_cast(value);
        }
        match register {
            RegisterTarget::A => self.reg.a = value as u8,
            RegisterTarget::B => self.reg.b = value as u8,
            RegisterTarget::C => self.reg.c = value as u8,
            RegisterTarget::D => self.reg.d = value as u8,
            RegisterTarget::E => self.reg.e = value as u8,
            RegisterTarget::H => self.reg.h = value as u8,
            RegisterTarget::L => self.reg.l = value as u8,
            RegisterTarget::HL => self.reg.set_hl(value),
            RegisterTarget::AF => self.reg.set_af(value),
            RegisterTarget::BC => self.reg.set_bc(value),
            RegisterTarget::DE => self.reg.set_de(value),
            RegisterTarget::SP => self.reg.sp = value,
            RegisterTarget::MemoryAdress(adress) => self.mem.set(adress, value as u8),
            _ => vstd::pervasive::unreached(),
        }
    }

    /// Program counter call: the byte at PC, with PC moved past it.
    fn pcc(&mut self) -> (v: u8)
        requires
            old(self)@.backed(old(self)@.reg.pc as int),
        ensures
            (final(self)@, v) == fetch(old(self)@),
    {
        proof {
            self.lemma_memory_size();
        }
        let v = self.mem.get(self.reg.pc);
        self.reg.pc = self.reg.pc.wrapping_add(1);
        v
    }

    /// The memory operand that a register pair points to.
    fn pointer_convert(&self, target: RegisterTarget) -> (r: RegisterTarget)
        requires
            target_readable(self@, target),
        ensures
            r == RegisterTarget::MemoryAdress(read_target(self@, target)),
    {
        RegisterTarget::MemoryAdress(self.get_target(target))
    }

    /// An 8-bit source operand, where `HL` names the cell it points to.
    fn get_target_hl(&mut self, target: RegisterTarget) -> (r: u8)
        requires
            operand_readable(old(self)@, target),
        ensures
            final(self)@ == old(self)@,
            r == operand8(old(self)@, target),
    {
        if target == RegisterTarget::HL {
            let addr = self.get_target(RegisterTarget::HL);
            let v = self.get_target(RegisterTarget::MemoryAdress(addr));
            proof {
                lemma_low_cast(v);
            }
            v as u8
        } else {
            let v = self.get_target(target);
            proof {
                lemma_low_cast(v);
            }
            v as u8
        }
    }

    fn get_a_and_target_hl(&mut self, target: RegisterTarget) -> (r: (u8, u8))
        requires
            operand_readable(old(self)@, target),
        ensures
            final(self)@ == old(self)@,
            r == (old(self)@.reg.a, operand8(old(self)@, target)),
    {
        let reg_a_value = self.reg.a;
        let target_value = self.get_target_hl(target);
        (reg_a_value, target_value)
    }
}

impl Cpu {
    fn inc_target(&mut self, target: RegisterTarget, set_flags: bool)
        requires
            step_ok(old(self)@, target),
        ensures
            final(self)@ == inc_target(old(self)@, target, set_flags),
    {
        let target_val = self.get_target(target);
        proof {
            lemma_wrap16(target_val + 1);
        }
        self.set_target(target, target_val.wrapping_add(1));
        if set_flags {
            let z = self.get_target(target) == 0;
            self.reg.set_flag(Flag::Z, z);
            self.reg.set_flag(Flag::N, false);
            proof {
                lemma_nibble(target_val);
            }
            self.reg.set_flag(Flag::H, target_val & 0xf == 0xf);
        }
    }

    fn dec_target(&mut self, target: RegisterTarget, set_flags: bool)
        requires
            step_ok(old(self)@, target),
        ensures
            final(self)@ == dec_target(old(self)@, target, set_flags),
    {
        let target_val = self.get_target(target);
        proof {
            lemma_wrap16(target_val - 1);
        }
        self.set_target(target, target_val.wrapping_sub(1));
        if set_flags {
            let z = self.get_target(target) == 0;
            self.reg.set_flag(Flag::Z, z);
            self.reg.set_flag(Flag::N, true);
            proof {
                lemma_nibble(target_val);
            }
            self.reg.set_flag(Flag::H, target_val & 0xf == 0);
        }
    }

    /// Load: the 8-bit value of `x` into `X`; `HL` names the cell it points to.
    #[allow(non_snake_case)]
    fn ld_X_x(&mut self, X: RegisterTarget, x: RegisterTarget)
        requires
            load_ok(old(self)@, X, x),
        ensures
            final(self)@ == load(old(self)@, X, x),
    {
        let mut X = X;
        let target_value = self.get_target_hl(x);
        if X == RegisterTarget::HL {
            X = self.pointer_convert(RegisterTarget::HL);
        }
        self.set_target(X, target_value as u16);
    }

    /// `ADD A, x`, or with `carry` `ADC A, x`: the carry flag is added as well.
    #[allow(non_snake_case)]
    fn add_A_x(&mut self, target: RegisterTarget, carry: bool)
        requires
            operand_readable(old(self)@, target),
        ensures
            final(self)@ == add_a(old(self)@, target, carry),
    {
        let (reg_a_value, target_value) = self.get_a_and_target_hl(target);
        let carry_value: u8 = if carry && self.reg.get_flag(Flag::C) {
            1
        } else {
            0
        };
        let sum: u16 = reg_a_value as u16 + target_value as u16 + carry_value as u16;
        proof {
            lemma_wrap8(sum as int);
            lemma_low_nibble(reg_a_value);
            lemma_low_nibble(target_value);
        }
        let result: u8 = if sum > 0xff {
            (sum - 0x100) as u8
        } else {
            sum as u8
        };
        let zero_check = result == 0;
        let half_carry = (reg_a_value & 0xf) + (target_value & 0xf) + carry_value > 0xf;
        let carry_check = sum > 0xff;
        self.reg.set_flag(Flag::Z, zero_check);
        self.reg.set_flag(Flag::N, false);
        self.reg.set_flag(Flag::H, half_carry);
        self.reg.set_flag(Flag::C, carry_check);
        self.reg.a = result;
    }

    /// `ADD HL, rr`.
    #[allow(non_snake_case)]
    fn add_HL_x(&mut self, target: RegisterTarget)
        requires
            target_readable(old(self)@, target),
        ensures
            final(self)@ == add_hl(old(self)@, target),
    {
        let (reg_hl_value, target_value) = (self.reg.get_hl(), self.get_target(target));
        let result = reg_hl_value.wrapping_add(target_value);
        proof {
            lemma_carry12(reg_hl_value, target_value, result);
        }
        self.reg.set_flag(Flag::N, false);
        self.reg.set_flag(Flag::H, (reg_hl_value ^ target_value ^ result) & 0x1000 != 0);
        self.reg.set_flag(Flag::C, reg_hl_value.checked_add(target_value) == None);
        self.reg.set_hl(result);
    }

    /// `SUB A, x`, or with `carry` `SBC A, x`: the carry flag is subtracted as well.
    #[allow(non_snake_case)]
    fn sub_A_x(&mut self, target: RegisterTarget, carry: bool)
        requires
            operand_readable(old(self)@, target),
        ensures
            final(self)@ == sub_a(old(self)@, target, carry),
    {
        let (reg_a_value, target_value) = self.get_a_and_target_hl(target);
        let carry_value: u8 = if carry && self.reg.get_flag(Flag::C) {
            1
        } else {
            0
        };
        let subtrahend: u16 = target_value as u16 + carry_value as u16;
        proof {
            lemma_wrap8(reg_a_value - target_value - carry_value);
            lemma_low_nibble(reg_a_value);
            lemma_low_nibble(target_value);
        }
        let result: u8 = if (reg_a_value as u16) < subtrahend {
            (reg_a_value as u16 + 0x100 - subtrahend) as u8
        } else {
            (reg_a_value as u16 - subtrahend) as u8
        };
        let zero_check = result == 0;
        let half_carry = (reg_a_value & 0xf) < (target_value & 0xf) + carry_value;
        let carry_check = (reg_a_value as u16) < subtrahend;
        self.reg.set_flag(Flag::Z, zero_check);
        self.reg.set_flag(Flag::H, half_carry);
        self.reg.set_flag(Flag::N, true);
        self.reg.set_flag(Flag::C, carry_check);
        self.reg.a = result;
    }

    #[allow(non_snake_case)]
    fn and_A_x(&mut self, target: RegisterTarget)
        requires
            operand_readable(old(self)@, target),
        ensures
            final(self)@ == and_a(old(self)@, target),
    {
        let (reg_a_value, target_value) = self.get_a_and_target_hl(target);
        self.reg.a = reg_a_value & target_value;
        self.reg.set_flag(Flag::Z, self.reg.a == 0);
        self.reg.set_flag(Flag::N, false);
        self.reg.set_flag(Flag::C, false);
        self.reg.set_flag(Flag::H, true);
    }

    #[allow(non_snake_case)]
    fn xor_A_x(&mut self, target: RegisterTarget)
        requires
            operand_readable(old(self)@, target),
        ensures
            final(self)@ == xor_a(old(self)@, target),
    {
        let (reg_a_value, target_value) = self.get_a_and_target_hl(target);
        self.reg.a = reg_a_value ^ target_value;
        self.reg.set_flag(Flag::Z, self.reg.a == 0);
        self.reg.set_flag(Flag::N, false);
        self.reg.set_flag(Flag::C, false);
        self.reg.set_flag(Flag::H, false);
    }

    #[allow(non_snake_case)]
    fn or_A_x(&mut self, target: RegisterTarget)
        requires
            operand_readable(old(self)@, target),
        ensures
            final(self)@ == or_a(old(self)@, target),
    {
        let (reg_a_value, target_value) = self.get_a_and_target_hl(target);
        self.reg.a = reg_a_value | target_value;
        self.reg.set_flag(Flag::Z, self.reg.a == 0);
        self.reg.set_flag(Flag::N, false);
        self.reg.set_flag(Flag::C, false);
        self.reg.set_flag(Flag::H, false);
    }

    /// Compare: the flags of a subtraction, with A kept.
    #[allow(non_snake_case)]
    fn cp_A_x(&mut self, target: RegisterTarget)
        requires
            operand_readable(old(self)@, target),
        ensures
            final(self)@ == cp_a(old(self)@, target),
    {
        let reg_a_value = self.reg.a;
        self.sub_A_x(target, false);
        self.reg.a = reg_a_value;
    }

    /// Rotate A left; the bit that leaves goes to C.
    fn rcla(&mut self)
        ensures
            final(self)@ == rlca(old(self)@),
    {
        proof {
            lemma_rotate(self.reg.a, 0);
        }
        self.reg.set_flag(Flag::Z, false);
        self.reg.set_flag(Flag::N, false);
        self.reg.set_flag(Flag::C, (self.reg.a >> 7) == 1);
        self.reg.set_flag(Flag::H, false);
        self.reg.a = (self.reg.a << 1) | (self.reg.a >> 7);
    }

    /// Rotate A left through the carry.
    fn rla(&mut self)
        ensures
            final(self)@ == rla(old(self)@),
    {
        let newcarry = (self.reg.a >> 7) == 1;
        let oldcarry = self.reg.get_flag(Flag::C) as u8;
        proof {
            lemma_rotate(self.reg.a, oldcarry);
        }
        self.reg.a = (self.reg.a << 1) | oldcarry;
        self.reg.set_flag(Flag::Z, false);
        self.reg.set_flag(Flag::N, false);
        self.reg.set_flag(Flag::C, newcarry);
        self.reg.set_flag(Flag::H, false);
    }

    /// Rotate A right; the bit that leaves goes to C.
    fn rrca(&mut self)
        ensures
            final(self)@ == rrca(old(self)@),
    {
        proof {
            lemma_rotate(self.reg.a, 0);
        }
        self.reg.set_flag(Flag::Z, false);
        self.reg.set_flag(Flag::N, false);
        self.reg.set_flag(Flag::H, false);
        self.reg.set_flag(Flag::C, (self.reg.a & 1) == 1);
        self.reg.a = (self.reg.a >> 1) | (self.reg.a << 7);
    }

    /// Rotate A right through the carry.
    fn rra(&mut self)
        ensures
            final(self)@ == rra(old(self)@),
    {
        let oldcarry = self.reg.get_flag(Flag::C) as u8;
        proof {
            lemma_rotate(self.reg.a, oldcarry);
        }
        self.reg.set_flag(Flag::C, (self.reg.a & 1) == 1);
        self.reg.a = (self.reg.a >> 1) | oldcarry << 7;
        self.reg.set_flag(Flag::Z, false);
        self.reg.set_flag(Flag::N, false);
        self.reg.set_flag(Flag::H, false);
    }
}

impl Cpu {
    /// Decimal adjust of A after a BCD addition or subtraction.
    fn daa(&mut self)
        ensures
            final(self)@ == daa(old(self)@),
    {
        let a_value = self.reg.a;
        let mut adjust: u8 = 0;
        let ghost mut lo = false;
        let ghost mut hi = false;
        proof {
            lemma_adjust(lo, hi);
        }
        if self.reg.get_flag(Flag::H) {
            adjust |= 0x06;
            proof {
                lo = true;
            }
        }
        proof {
            lemma_adjust(lo, hi);
        }
        if self.reg.get_flag(Flag::C) {
            adjust |= 0x60;
            proof {
                hi = true;
            }
        }
        proof {
            lemma_adjust(lo, hi);
            lemma_low_nibble(a_value);
        }
        let res = if self.reg.get_flag(Flag::N) {
            proof {
                lemma_wrap8(a_value - adjust);
            }
            a_value.wrapping_sub(adjust)
        } else {
            if a_value & 0x0f > 0x09 {
                adjust |= 0x06;
                proof {
                    lo = true;
                }
            }
            proof {
                lemma_adjust(lo, hi);
            }
            if a_value > 0x99 {
                adjust |= 0x60;
                proof {
                    hi = true;
                }
            }
            proof {
                lemma_adjust(lo, hi);
                lemma_wrap8(a_value + adjust);
            }
            a_value.wrapping_add(adjust)
        };
        assert(adjust == adjust_byte(lo, hi));
        self.reg.a = res;
        self.reg.set_flag(Flag::Z, res == 0);
        self.reg.set_flag(Flag::H, false);
        self.reg.set_flag(Flag::C, adjust & 0x60 != 0);
    }

    /// `JR`: the signed displacement after the opcode is always consumed, and added to PC
    /// when `condition` holds.
    fn relative_jump(&mut self, condition: bool)
        requires
            old(self)@.backed(old(self)@.reg.pc as int),
        ensures
            final(self)@ == relative_jump(old(self)@, condition),
    {
        let byte = self.pcc();
        let to_add = byte as i8;
        if condition {
            let temp_pc = self.reg.pc as i16;
            let sum = temp_pc.wrapping_add(to_add as i16);
            proof {
                lemma_relative(self.reg.pc, byte, sum);
                let p = self.reg.pc as int;
                let q = byte as int;
                assert((p + q - 256) % 65536 == (p + q + 65280) % 65536);
            }
            self.reg.pc = sum as u16;
        }
    }

    fn pop_byte(&mut self) -> (v: u8)
        requires
            pop_byte_ok(old(self)@),
        ensures
            (final(self)@, v) == pop_byte(old(self)@),
    {
        proof {
            self.lemma_memory_size();
        }
        self.reg.sp += 1;
        self.mem.memory[(self.reg.sp - 1) as usize]
    }

    fn pop_word(&mut self) -> (v: u16)
        requires
            pop_ok(old(self)@),
        ensures
            (final(self)@, v) == pop_word(old(self)@),
    {
        let lo = self.pop_byte();
        let hi = self.pop_byte();
        proof {
            lemma_word_bits(hi, lo);
        }
        (hi as u16) << 8 | lo as u16
    }

    fn push_byte(&mut self, val: u8)
        requires
            push_byte_ok(old(self)@),
        ensures
            final(self)@ == push_byte(old(self)@, val),
    {
        proof {
            self.lemma_memory_size();
        }
        self.reg.sp -= 1;
        self.mem.memory[self.reg.sp as usize] = val
    }

    fn push_word(&mut self, val: u16)
        requires
            push_ok(old(self)@),
        ensures
            final(self)@ == push_word(old(self)@, val),
    {
        proof {
            lemma_split_bits(val);
            lemma_low_cast(val);
        }
        self.push_byte((val >> 8) as u8);
        self.push_byte(val as u8);
    }

    /// Restart: PC pushed, then PC set to `addr`.
    fn rst(&mut self, addr: u16)
        requires
            push_ok(old(self)@),
        ensures
            final(self)@ == rst(old(self)@, addr),
    {
        let pc = self.reg.pc;
        self.push_word(pc);
        self.reg.pc = addr;
    }
}

/// Combines two bytes read in order (low first) into a word.
fn nibc(unib: u8, lnib: u8) -> (r: u16)
    ensures
        r == word(lnib, unib),
{
    proof {
        lemma_word_bits(lnib, unib);
    }
    (lnib as u16) << 8 | unib as u16
}

impl Cpu {
    /// The instructions `0x80` to `0xBF`: an 8-bit operation of A with a register or (HL).
    fn execute_alu(&mut self, op: u8)
        requires
            0x80 <= op < 0xc0,
            operand_readable(old(self)@, target_of(op % 8)),
        ensures
            final(self)@ == alu(old(self)@, (op / 8) % 8, target_of(op % 8)),
    {
        proof {
            lemma_opcode_fields(op);
        }
        if op <= 0x87 {
            let register: RegisterTarget = (op & 0b0000_1111).into();
            self.add_A_x(register, false)
        } else if op <= 0x8f {
            let register: RegisterTarget = ((op - 0x8) & 0b0000_1111).into();
            self.add_A_x(register, true)
        } else if op <= 0x97 {
            let register: RegisterTarget = (op & 0b0000_1111).into();
            self.sub_A_x(register, false);
        } else if op <= 0x9f {
            let register: RegisterTarget = ((op - 0x8) & 0b0000_1111).into();
            self.sub_A_x(register, true);
        } else if op <= 0xa7 {
            let register: RegisterTarget = (op & 0b0000_1111).into();
            self.and_A_x(register);
        } else if op <= 0xaf {
            let register: RegisterTarget = ((op - 0x8) & 0b0000_1111).into();
            self.xor_A_x(register);
        } else if op <= 0xb7 {
            let register: RegisterTarget = (op & 0b0000_1111).into();
            self.or_A_x(register);
        } else {
            let register: RegisterTarget = ((op - 0x8) & 0b0000_1111).into();
            self.cp_A_x(register)
        }
    }
}

impl Cpu {
    /// The instructions `0x00` to `0x3F`; the opcode has been fetched.
    #[verifier::rlimit(50)]
    fn execute_low(&mut self, op: u8) -> (r: Step)
        requires
            op < 0x40,
            op_ok(old(self)@, op),
        ensures
            (final(self)@, r) == execute_low(old(self)@, op),
    {
        proof {
            reveal(execute_low);
            self.lemma_memory_size();
        }
        match op {
            0x0 => {},
            0x01 => {
                let lo = self.pcc();
                self.reg.c = lo;
                let hi = self.pcc();
                self.reg.b = hi;
                proof {
                    lemma_word_parts(hi, lo);
                }
            },
            0x02 => {
                let target = self.pointer_convert(RegisterTarget::BC);
                let value = self.reg.a as u16;
                self.set_target(target, value);
            },
            0x03 => self.inc_target(RegisterTarget::BC, false),
            0x04 => self.inc_target(RegisterTarget::B, true),
            0x05 => self.dec_target(RegisterTarget::B, true),
            0x06 => {
                let value = RegisterTarget::Value(self.pcc() as u16);
                self.ld_X_x(RegisterTarget::B, value);
            },
            0x07 => self.rcla(),
            0x08 => {
                let lo = self.pcc();
                let hi = self.pcc();
                let addr = nibc(lo, hi);
                proof {
                    lemma_split_bits(self.reg.sp);
                    lemma_nibble(self.reg.sp);
                }
                let val1 = (self.reg.sp & 0xff) as u8;
                let val2 = (self.reg.sp >> 8) as u8;
                self.mem.memory[addr as usize] = val1;
                self.mem.memory[(addr + 1) as usize] = val2;
            },
            0x09 => self.add_HL_x(RegisterTarget::BC),
            0x0A => {
                let source = self.pointer_convert(RegisterTarget::BC);
                self.ld_X_x(RegisterTarget::A, source);
            },
            0x0B => self.dec_target(RegisterTarget::BC, false),
            0x0C => self.inc_target(RegisterTarget::C, true),
            0x0D => self.dec_target(RegisterTarget::C, true),
            0x0E => self.reg.c = self.pcc(),
            0x0F => self.rrca(),
            0x10 => {
                return Step::Stop;
            },
            0x11 => {
                let lo = self.pcc();
                self.reg.e = lo;
                let hi = self.pcc();
                self.reg.d = hi;
                proof {
                    lemma_word_parts(hi, lo);
                }
            },
            0x12 => {
                let target = self.pointer_convert(RegisterTarget::DE);
                let value = self.reg.a as u16;
                self.set_target(target, value);
            },
            0x13 => self.inc_target(RegisterTarget::DE, false),
            0x14 => self.inc_target(RegisterTarget::D, true),
            0x15 => self.dec_target(RegisterTarget::D, true),
            0x16 => {
                let value = RegisterTarget::Value(self.pcc() as u16);
                self.ld_X_x(RegisterTarget::D, value);
            },
            0x17 => self.rla(),
            0x18 => self.relative_jump(true),
            0x19 => self.add_HL_x(RegisterTarget::DE),
            0x1A => {
                let source = self.pointer_convert(RegisterTarget::DE);
                self.ld_X_x(RegisterTarget::A, source);
            },
            0x1B => self.dec_target(RegisterTarget::DE, false),
            0x1C => self.inc_target(RegisterTarget::E, true),
            0x1D => self.dec_target(RegisterTarget::E, true),
            0x1E => self.reg.e = self.pcc(),
            0x1F => self.rra(),
            0x20 => {
                let condition = !self.reg.get_flag(Flag::Z);
                self.relative_jump(condition);
            },
            0x21 => {
                let lo = self.pcc();
                self.reg.l = lo;
                let hi = self.pcc();
                self.reg.h = hi;
                proof {
                    lemma_word_parts(hi, lo);
                }
            },
            0x22 => {
                let target = self.pointer_convert(RegisterTarget::HL);
                let value = self.reg.a as u16;
                self.set_target(target, value);
                self.inc_target(RegisterTarget::HL, false);
            },
            0x23 => self.inc_target(RegisterTarget::HL, false),
            0x24 => self.inc_target(RegisterTarget::H, true),
            0x25 => self.dec_target(RegisterTarget::H, true),
            0x26 => {
                let value = RegisterTarget::Value(self.pcc() as u16);
                self.ld_X_x(RegisterTarget::H, value);
            },
            0x27 => self.daa(),
            0x28 => {
                let condition = self.reg.get_flag(Flag::Z);
                self.relative_jump(condition);
            },
            0x29 => self.add_HL_x(RegisterTarget::HL),
            0x2A => {
                let source = self.pointer_convert(RegisterTarget::HL);
                self.ld_X_x(RegisterTarget::A, source);
                self.inc_target(RegisterTarget::HL, false);
            },
            0x2B => self.dec_target(RegisterTarget::HL, false),
            0x2C => self.inc_target(RegisterTarget::L, true),
            0x2D => self.dec_target(RegisterTarget::L, true),
            0x2E => self.reg.l = self.pcc(),
            0x2F => {
                self.reg.a = !self.reg.a;
                self.reg.set_flag(Flag::N, true);
                self.reg.set_flag(Flag::H, true);
            },
            0x30 => {
                let condition = !self.reg.get_flag(Flag::C);
                self.relative_jump(condition);
            },
            0x31 => {
                let unib = self.pcc();
                let lnib = self.pcc();
                self.reg.sp = nibc(unib, lnib);
            },
            0x32 => {
                let target = self.pointer_convert(RegisterTarget::HL);
                let value = self.reg.a as u16;
                self.set_target(target, value);
                self.dec_target(RegisterTarget::HL, false);
            },
            0x33 => self.inc_target(RegisterTarget::SP, false),
            0x34 => {
                let target = self.pointer_convert(RegisterTarget::HL);
                self.inc_target(target, true);
            },
            0x35 => {
                let target = self.pointer_convert(RegisterTarget::HL);
                self.dec_target(target, true);
            },
            0x36 => {
                let value = RegisterTarget::Value(self.pcc() as u16);
                self.ld_X_x(RegisterTarget::HL, value);
            },
            0x37 => {
                self.reg.set_flag(Flag::N, false);
                self.reg.set_flag(Flag::H, false);
                self.reg.set_flag(Flag::C, true);
            },
            0x38 => {
                let condition = self.reg.get_flag(Flag::C);
                self.relative_jump(condition);
            },
            0x39 => self.add_HL_x(RegisterTarget::SP),
            0x3A => {
                let source = self.pointer_convert(RegisterTarget::HL);
                self.ld_X_x(RegisterTarget::A, source);
                self.inc_target(RegisterTarget::HL, false);
            },
            0x3B => self.dec_target(RegisterTarget::SP, false),
            0x3C => self.inc_target(RegisterTarget::A, true),
            0x3D => self.dec_target(RegisterTarget::A, true),
            0x3E => self.reg.a = self.pcc(),
            _ => {
                let carry = self.reg.get_flag(Flag::C);
                self.reg.set_flag(Flag::C, !carry);
            },
        }
        Step::Continue
    }
}

impl Cpu {
    /// `POP AF`: A and then F read from the stack, SP moving by one after each.
    fn pop_af(&mut self)
        requires
            old(self)@.backed(old(self)@.reg.sp as int),
            old(self)@.backed(wrap16(old(self)@.reg.sp + 1) as int),
        ensures
            final(self)@ == pop_af(old(self)@),
    {
        let ghost sp = self.reg.sp as int;
        let source = self.pointer_convert(RegisterTarget::SP);
        self.ld_X_x(RegisterTarget::A, source);
        self.inc_target(RegisterTarget::SP, false);
        let source = self.pointer_convert(RegisterTarget::SP);
        self.reg.f = self.get_target_hl(source);
        self.inc_target(RegisterTarget::SP, false);
        proof {
            lemma_wrap16(sp + 1);
            lemma_wrap16(wrap16(sp + 1) + 1);
            lemma_wrap16(sp + 2);
        }
    }

    /// `PUSH AF`: A and then F written below SP, SP moving down by one before each.
    fn push_af(&mut self)
        requires
            old(self)@.backed(wrap16(old(self)@.reg.sp - 1) as int),
            old(self)@.backed(wrap16(old(self)@.reg.sp - 2) as int),
        ensures
            final(self)@ == push_af(old(self)@),
    {
        let ghost sp = self.reg.sp as int;
        proof {
            lemma_wrap16(sp - 1);
            lemma_wrap16(wrap16(sp - 1) - 1);
            lemma_wrap16(sp - 2);
        }
        self.dec_target(RegisterTarget::SP, false);
        let target = self.pointer_convert(RegisterTarget::SP);
        self.ld_X_x(target, RegisterTarget::A);
        self.dec_target(RegisterTarget::SP, false);
        let target = self.pointer_convert(RegisterTarget::SP);
        let flags = self.reg.f as u16;
        self.ld_X_x(target, RegisterTarget::Value(flags));
    }

    /// `ADD SP, n` and `LD HL, SP + n`: SP plus the byte after the opcode, taken unsigned.
    fn sp_plus_immediate(&mut self) -> (r: u16)
        requires
            old(self)@.backed(old(self)@.reg.pc as int),
        ensures
            ({
                let (u, n) = fetch(old(self)@);
                &&& final(self)@ == u.with_reg(sp_plus_immediate_flags(u, n))
                &&& r == wrap16(u.reg.sp + n)
            }),
    {
        let (reg_sp_value, target_value) = (self.reg.sp as i32, self.pcc() as i32);
        let result = reg_sp_value.wrapping_add(target_value);
        proof {
            lemma_sp_offset(self.reg.sp, target_value as u8, result);
            lemma_nibble(self.reg.sp);
            lemma_low_nibble(target_value as u8);
        }
        let carry_check = (reg_sp_value ^ target_value ^ result) & 0x100 != 0;
        let half_carry = (reg_sp_value ^ target_value ^ result) & 0x10 != 0;
        self.reg.set_flag(Flag::Z, false);
        self.reg.set_flag(Flag::N, false);
        self.reg.set_flag(Flag::H, half_carry);
        self.reg.set_flag(Flag::C, carry_check);
        result as u16
    }

    /// The instructions `0xC0` to `0xFF`; the opcode has been fetched.
    #[verifier::rlimit(100)]
    fn execute_high(&mut self, op: u8) -> (r: Step)
        requires
            0xc0 <= op,
            op_ok(old(self)@, op),
        ensures
            (final(self)@, r) == execute_high(old(self)@, op),
    {
        proof {
            reveal(execute_high);
            self.lemma_memory_size();
        }
        match op {
            0xc0 => {
                if !self.reg.get_flag(Flag::Z) {
                    let v = self.pop_word();
                    self.reg.pc = v;
                }
            },
            0xc1 => {
                let val = self.pop_word();
                self.reg.set_bc(val);
            },
            0xc2 => {
                if !self.reg.get_flag(Flag::Z) {
                    let unib = self.pcc();
                    let lnib = self.pcc();
                    self.reg.pc = nibc(unib, lnib);
                }
            },
            0xc3 => {
                let unib = self.pcc();
                let lnib = self.pcc();
                self.reg.pc = nibc(unib, lnib);
            },
            0xc4 => {
                return Step::Unfinished(op);
            },
            0xc5 => {
                let v = self.reg.get_bc();
                self.push_word(v)
            },
            0xc6 => {
                let value = RegisterTarget::Value(self.pcc() as u16);
                self.add_A_x(value, true)
            },
            0xc7 => self.rst(0x0),
            0xc8 => {
                if !self.reg.get_flag(Flag::C) {
                    let v = self.pop_word();
                    self.reg.pc = v;
                }
            },
            0xca => {
                if self.reg.get_flag(Flag::Z) {
                    let unib = self.pcc();
                    let lnib = self.pcc();
                    self.reg.pc = nibc(unib, lnib);
                }
            },
            0xcb => {
                self.opcode = self.pcc();
                match self.opcode {
                    0x7c => {
                        proof {
                            lemma_low_nibble(self.reg.h);
                        }
                        if self.reg.h & 0b1000_0000 == 0b1000_0000 {
                            self.reg.set_flag(Flag::Z, false)
                        } else {
                            self.reg.set_flag(Flag::Z, true)
                        }
                        self.reg.set_flag(Flag::N, false);
                        self.reg.set_flag(Flag::H, false);
                    },
                    _ => {
                        return Step::UnknownPrefixedOpcode(self.opcode);
                    },
                }
            },
            0xcf => self.rst(0x08),
            0xd0 => {
                if !self.reg.get_flag(Flag::C) {
                    let v = self.pop_word();
                    self.reg.pc = v;
                }
            },
            0xd1 => {
                let val = self.pop_word();
                self.reg.set_de(val);
            },
            0xd2 => {
                if !self.reg.get_flag(Flag::C) {
                    let unib = self.pcc();
                    let lnib = self.pcc();
                    self.reg.pc = nibc(unib, lnib);
                }
            },
            0xd5 => {
                let v = self.reg.get_de();
                self.push_word(v)
            },
            0xd6 => {
                let value = RegisterTarget::Value(self.pcc() as u16);
                self.sub_A_x(value, true)
            },
            0xd7 => self.rst(0x10),
            0xd8 => {
                if self.reg.get_flag(Flag::C) {
                    let v = self.pop_word();
                    self.reg.pc = v;
                }
            },
            0xda => {
                if self.reg.get_flag(Flag::C) {
                    let unib = self.pcc();
                    let lnib = self.pcc();
                    self.reg.pc = nibc(unib, lnib);
                }
            },
            0xdf => self.rst(0x18),
            0xe0 => {
                let addr = 0xff00 + self.pcc() as u16;
                self.ld_X_x(RegisterTarget::MemoryAdress(addr), RegisterTarget::A)
            },
            0xe1 => {
                let val = self.pop_word();
                self.reg.set_hl(val);
            },
            0xe5 => {
                let v = self.reg.get_hl();
                self.push_word(v)
            },
            0xe6 => {
                let value = RegisterTarget::Value(self.pcc() as u16);
                self.and_A_x(value)
            },
            0xe7 => self.rst(0x20),
            0xe8 => {
                let result = self.sp_plus_immediate();
                self.reg.sp = result;
            },
            0xef => self.rst(0x28),
            0xf0 => {
                let addr = 0xff00 + self.pcc() as u16;
                self.ld_X_x(RegisterTarget::A, RegisterTarget::MemoryAdress(addr))
            },
            0xf1 => self.pop_af(),
            0xf3 => {
                self.interupts_enabled = false;
            },
            0xf5 => self.push_af(),
            0xf6 => {
                let value = RegisterTarget::Value(self.pcc() as u16);
                self.or_A_x(value)
            },
            0xf7 => self.rst(0x30),
            0xf8 => {
                let result = self.sp_plus_immediate();
                self.reg.set_hl(result);
            },
            0xfb => {
                self.interupts_enabled = true;
            },
            0xfe => {
                let val = self.pcc() as u16;
                self.cp_A_x(RegisterTarget::Value(val))
            },
            0xff => self.rst(0x38),
            _ => {
                return Step::UnknownOpcode(op);
            },
        }
        Step::Continue
    }
}

impl Cpu {
    /// Whether the next instruction cannot run; see `faults`.
    #[verifier::rlimit(50)]
    fn next_faults(&self) -> (r: bool)
        ensures
            r == faults(self@),
    {
        proof {
            self.lemma_memory_size();
            reveal(faults);
        }
        let pc = self.reg.pc;
        if pc as usize >= MEMORY_SIZE {
            return true;
        }
        let op = self.mem.get(pc);
        proof {
            lemma_opcode_fields(op);
        }
        let next: usize = pc as usize + 1;
        let one = next < MEMORY_SIZE;
        let two = next + 1 < MEMORY_SIZE;
        let hl = (self.reg.get_hl() as usize) < MEMORY_SIZE;
        let sp: usize = self.reg.sp as usize;
        let z = self.reg.get_flag(Flag::Z);
        let c = self.reg.get_flag(Flag::C);
        let pop = sp + 2 <= 0xFFFF && sp + 1 < MEMORY_SIZE;
        let push = sp >= 2 && sp - 1 < MEMORY_SIZE;
        let runs = if 0x40 <= op && op < 0x80 {
            op == 0x76 || !((op - 0x40) / 8 == 6 || op % 8 == 6) || hl
        } else if 0x80 <= op && op < 0xc0 {
            op % 8 != 6 || hl
        } else {
            match op {
                0x01 | 0x11 | 0x21 | 0x31 | 0xc3 => two,
                0x02 | 0x0A => (self.reg.get_bc() as usize) < MEMORY_SIZE,
                0x12 | 0x1A => (self.reg.get_de() as usize) < MEMORY_SIZE,
                0x22 | 0x2A | 0x32 | 0x3A | 0x34 | 0x35 => hl,
                0x06 | 0x0E | 0x16 | 0x1E | 0x26 | 0x2E | 0x3E | 0x18 | 0x20 | 0x28 | 0x30 | 0x38
                | 0xc6 | 0xd6 | 0xe6 | 0xf6 | 0xfe | 0xe8 | 0xf8 | 0xcb => one,
                0x36 => one && hl,
                0x08 => {
                    if two {
                        let lo = self.mem.get(next as u16);
                        let hi = self.mem.get((next + 1) as u16);
                        (nibc(lo, hi) as usize) + 1 < MEMORY_SIZE
                    } else {
                        false
                    }
                },
                0xc0 => z || pop,
                0xc8 | 0xd0 => c || pop,
                0xd8 => !c || pop,
                0xc1 | 0xd1 | 0xe1 => pop,
                0xc2 => z || two,
                0xca => !z || two,
                0xd2 => c || two,
                0xda => !c || two,
                0xc5 | 0xd5 | 0xe5 | 0xc7 | 0xcf | 0xd7 | 0xdf | 0xe7 | 0xef | 0xf7 | 0xff => push,
                0xe0 | 0xf0 => {
                    if one {
                        0xff00 + (self.mem.get(next as u16) as usize) < MEMORY_SIZE
                    } else {
                        false
                    }
                },
                0xf1 => sp < MEMORY_SIZE && (self.reg.sp.wrapping_add(1) as usize) < MEMORY_SIZE,
                0xf5 => (self.reg.sp.wrapping_sub(1) as usize) < MEMORY_SIZE && (self.reg.sp.wrapping_sub(
                    2,
                ) as usize) < MEMORY_SIZE,
                _ => true,
            }
        };
        !runs
    }

    /// Runs one instruction. An instruction that would touch an address outside memory, or
    /// move SP past either end, changes nothing and reports `Step::Fault`.
    pub fn tick(&mut self) -> (r: Step)
        ensures
            faults(old(self)@) ==> r == Step::Fault && final(self)@ == old(self)@,
            !faults(old(self)@) ==> (final(self)@, r) == step(old(self)@),
            final(self)@.mem.len() == MEMORY_SIZE,
    {
        proof {
            reveal(faults);
            reveal(step);
        }
        if self.next_faults() {
            return Step::Fault;
        }
        self.opcode = self.pcc();
        let op = self.opcode;
        if op < 0x40 {
            self.execute_low(op)
        } else if op < 0x80 {
            if op == 0x76 {
                Step::Unfinished(op)
            } else {
                proof {
                    lemma_opcode_fields(op);
                }
                let target: RegisterTarget = ((op - 0x40) / 8).into();
                let val: RegisterTarget = ((op % 8) & 0b0000_1111).into();
                self.ld_X_x(target, val);
                Step::Continue
            }
        } else if op < 0xc0 {
            self.execute_alu(op);
            Step::Continue
        } else {
            self.execute_high(op)
        }
    }
}

/// The lower-case hexadecimal digit `d`.
fn hex_digit_str(d: u16) -> (s: &'static str)
    requires
        d < 16,
    ensures
        s@ == seq![hex_digit(d as nat)],
{
    match d {
        0 => {
            proof {
                reveal_strlit("0");
            }
            "0"
        },
        1 => {
            proof {
                reveal_strlit("1");
            }
            "1"
        },
        2 => {
            proof {
                reveal_strlit("2");
            }
            "2"
        },
        3 => {
            proof {
                reveal_strlit("3");
            }
            "3"
        },
        4 => {
            proof {
                reveal_strlit("4");
            }
            "4"
        },
        5 => {
            proof {
                reveal_strlit("5");
            }
            "5"
        },
        6 => {
            proof {
                reveal_strlit("6");
            }
            "6"
        },
        7 => {
            proof {
                reveal_strlit("7");
            }
            "7"
        },
        8 => {
            proof {
                reveal_strlit("8");
            }
            "8"
        },
        9 => {
            proof {
                reveal_strlit("9");
            }
            "9"
        },
        10 => {
            proof {
                reveal_strlit("a");
            }
            "a"
        },
        11 => {
            proof {
                reveal_strlit("b");
            }
            "b"
        },
        12 => {
            proof {
                reveal_strlit("c");
            }
            "c"
        },
        13 => {
            proof {
                reveal_strlit("d");
            }
            "d"
        },
        14 => {
            proof {
                reveal_strlit("e");
            }
            "e"
        },
        _ => {
            proof {
                reveal_strlit("f");
            }
            "f"
        },
    }
}

/// Appends `v` in lower-case hexadecimal, without leading zeros.
fn append_hex(text: &mut String, v: u16)
    ensures
        final(text)@ == old(text)@ + hex_text(v as nat),
    decreases v,
{
    let ghost start = text@;
    if v >= 16 {
        append_hex(text, v / 16);
    }
    text.append(hex_digit_str(v % 16));
    proof {
        if v >= 16 {
            assert(start + hex_text((v / 16) as nat) + seq![hex_digit((v % 16) as nat)] =~= start
                + hex_text(v as nat));
        } else {
            assert(start + seq![hex_digit((v % 16) as nat)] =~= start + hex_text(v as nat));
        }
    }
}

impl Cpu {
    /// A processor in the state the boot ROM leaves it in, over the given memory: PC at
    /// 0x100, SP at 0xFFFE, AF = 0x01B0, BC = 0x0013, DE = 0x00D8, HL = 0x014D, interrupts on.
    pub fn new(reg: Registers, mem: Memory) -> (cpu: Cpu)
        ensures
            cpu@ == (CpuState { reg: boot_registers(), mem: mem@, opcode: 0, ime: true }),
    {
        let mut new_cpu = Cpu { reg, opcode: 0, mem, interupts_enabled: true };
        new_cpu.reg.pc = 0x100;
        new_cpu.reg.set_af(0x01B0);
        new_cpu.reg.set_bc(0x0013);
        new_cpu.reg.set_de(0x00D8);
        new_cpu.reg.set_hl(0x014D);
        new_cpu.reg.sp = 0xFFFE;
        proof {
            lemma_boot_flags();
        }
        new_cpu.reg.set_flag(Flag::Z, true);
        new_cpu.reg.set_flag(Flag::H, true);
        new_cpu.reg.set_flag(Flag::C, true);
        new_cpu
    }

    /// The register summary shown by the debugger.
    pub fn get_register_debug_string(&self) -> (text: String)
        requires
            self@.backed(self@.reg.pc as int),
        ensures
            text@ == register_debug_text(self@.reg, self@.read(self@.reg.pc)),
    {
        proof {
            self.lemma_memory_size();
        }
        let mut text = String::from_str("PC: ");
        append_hex(&mut text, self.reg.pc);
        text.append(", OpCode ");
        append_hex(&mut text, self.mem.get(self.reg.pc) as u16);
        text.append(" \nRegisters \na: ");
        append_hex(&mut text, self.reg.a as u16);
        text.append(", f: ");
        append_hex(&mut text, self.reg.f as u16);
        text.append(" \nb: ");
        append_hex(&mut text, self.reg.b as u16);
        text.append(" c: ");
        append_hex(&mut text, self.reg.c as u16);
        text.append(" \nd: ");
        append_hex(&mut text, self.reg.d as u16);
        text.append(" e:");
        append_hex(&mut text, self.reg.e as u16);
        text.append(" \nh:");
        append_hex(&mut text, self.reg.h as u16);
        text.append(" l: ");
        append_hex(&mut text, self.reg.l as u16);
        text.append(" \nsp: ");
        append_hex(&mut text, self.reg.sp);
        text.append(" pc: ");
        append_hex(&mut text, self.reg.pc);
        text
    }

    /// A copy of the working memory.
    pub fn get_memory_debug(&mut self) -> (m: Memory)
        ensures
            final(self)@ == old(self)@,
            m@ == old(self)@.mem,
    {
        self.mem
    }

    /// A copy of the register file.
    pub fn get_registers(&self) -> (r: Registers)
        ensures
            r@ == self@.reg,
    {
        self.reg
    }

    /// Whether interrupts are enabled (`EI` sets it, `DI` clears it).
    pub fn interrupts_enabled(&self) -> (r: bool)
        ensures
            r == self@.ime,
    {
        self.interupts_enabled
    }
}

/// A processor after start-up, with the first 0x8000 bytes of a cartridge image in memory.
pub fn create_cpu(rom: &[u8]) -> (cpu: Cpu)
    requires
        rom@.len() >= 0x8000,
    ensures
        cpu@ == (CpuState {
            reg: boot_registers(),
            mem: loaded_memory(rom@),
            opcode: 0,
            ime: true,
        }),
{
    let registers = Registers::new();
    let mut main_memory = Memory::new();
    broadcast use vstd::array::array_len_matches_n;

    for x in 0..0x8000
        invariant
            rom@.len() >= 0x8000,
            main_memory@.len() == MEMORY_SIZE,
            forall|i: int| 0 <= i < x ==> #[trigger] main_memory@[i] == rom@[i],
            forall|i: int| x <= i < MEMORY_SIZE ==> #[trigger] main_memory@[i] == 0,
    {
        main_memory.memory[x] = rom[x];
    }
    assert(main_memory@ == loaded_memory(rom@));
    Cpu::new(registers, main_memory)
}

} // verus!
