use vstd::prelude::*;
use crate::semantics::{high, low, word, wrap16, wrap8};

verus! {

/// The correction byte of `DAA`: 0x06 for the low digit, 0x60 for the high one.
pub(crate) open spec fn adjust_byte(lo: bool, hi: bool) -> u8 {
    (if lo {
        6u8
    } else {
        0u8
    }) | (if hi {
        0x60u8
    } else {
        0u8
    })
}

pub(crate) proof fn lemma_word_bits(hi: u8, lo: u8)
    ensures
        ((hi as u16) << 8u16 | (lo as u16)) == word(hi, lo),
{
    assert(((hi as u16) << 8u16 | (lo as u16)) == hi * 256 + lo) by (bit_vector);
}

pub(crate) proof fn lemma_split_bits(v: u16)
    ensures
        ((v >> 8u16) as u8) == high(v),
        ((v & 0x00ff) as u8) == low(v),
        ((v & 0x00f0) as u8) == (low(v) / 16 * 16) as u8,
{
    assert(v >> 8u16 == v / 256) by (bit_vector);
    assert(v & 0x00ff == v % 256) by (bit_vector);
    assert(v & 0x00f0 == (v % 256) / 16 * 16) by (bit_vector);
}

pub(crate) proof fn lemma_low_cast(v: u16)
    ensures
        (v as u8) == low(v),
{
    assert((v as u8) == (v % 256) as u8) by (bit_vector);
}

pub(crate) proof fn lemma_wrap8(x: int)
    requires
        -256 <= x < 512,
    ensures
        wrap8(x) == (if x >= 256 {
            x - 256
        } else if x < 0 {
            x + 256
        } else {
            x
        }) as u8,
{
}

pub(crate) proof fn lemma_wrap16(x: int)
    requires
        -0x10000 <= x < 0x20000,
    ensures
        wrap16(x) == (if x >= 0x10000 {
            x - 0x10000
        } else if x < 0 {
            x + 0x10000
        } else {
            x
        }) as u16,
{
}

pub(crate) proof fn lemma_nibble(v: u16)
    by (bit_vector)
    ensures
        (v & 0xf == 0xf) == (v % 16 == 15),
        v & 0xf == v % 16,
        v & 0xff == v % 256,
{
}

pub(crate) proof fn lemma_low_nibble(x: u8)
    by (bit_vector)
    ensures
        x & 0xf == x % 16,
        x >> 4u8 == x / 16,
        (x & 0x80 == 0x80) == (x >= 128),
{
}

pub(crate) proof fn lemma_carry12(x: u16, y: u16, r: u16)
    by (bit_vector)
    requires
        (x + y <= 0xFFFF && r == x + y) || (x + y > 0xFFFF && r == x + y - 0x10000),
    ensures
        ((x ^ y ^ r) & 0x1000 != 0) == (x % 4096 + y % 4096 >= 4096),
{
}

pub(crate) proof fn lemma_rotate(a: u8, c: u8)
    by (bit_vector)
    requires
        c <= 1,
    ensures
        (a >> 7u8 == 1) == (a >= 128),
        (a & 1 == 1) == (a % 2 == 1),
        ((a << 1u8) | (a >> 7u8)) == ((a * 2 + a / 128) % 256) as u8,
        ((a << 1u8) | c) == ((a * 2 + c) % 256) as u8,
        ((a >> 1u8) | (a << 7u8)) == (a / 2 + (a % 2) * 128) as u8,
        ((a >> 1u8) | (c << 7u8)) == (a / 2 + c * 128) as u8,
{
}

pub(crate) proof fn lemma_relative(pc: u16, b: u8, w: i16)
    by (bit_vector)
    requires
        ((pc as i16) + ((b as i8) as i16) > 32767 && w == (pc as i16) + ((b as i8) as i16) - 65536)
            || ((pc as i16) + ((b as i8) as i16) < -32768 && w == (pc as i16) + ((b as i8) as i16)
            + 65536) || (-32768 <= (pc as i16) + ((b as i8) as i16) <= 32767 && w == (pc as i16) + ((
        b as i8) as i16)),
    ensures
        b < 128 ==> (w as u16) == (((pc as u32) + (b as u32)) % 65536) as u16,
        b >= 128 ==> (w as u16) == (((pc as u32) + (b as u32) + 65280) % 65536) as u16,
{
}

pub(crate) proof fn lemma_sp_offset(sp: u16, n: u8, r: i32)
    by (bit_vector)
    requires
        r == (sp as i32) + (n as i32),
    ensures
        (((sp as i32) ^ (n as i32) ^ r) & 0x100 != 0) == ((sp & 0xff) + n >= 256),
        (((sp as i32) ^ (n as i32) ^ r) & 0x10 != 0) == ((sp & 0xf) + (n & 0xf) >= 16),
        (r as u16) == (((sp as u32) + (n as u32)) % 65536) as u16,
{
}

pub(crate) proof fn lemma_adjust(lo: bool, hi: bool)
    by (bit_vector)
    ensures
        adjust_byte(lo, hi) | 0x06 == adjust_byte(true, hi),
        adjust_byte(lo, hi) | 0x60 == adjust_byte(lo, true),
        (adjust_byte(lo, hi) & 0x60 != 0) == hi,
        adjust_byte(false, false) == 0,
        adjust_byte(true, false) == 6,
        adjust_byte(false, true) == 0x60,
        adjust_byte(true, true) == 0x66,
{
}

pub(crate) proof fn lemma_opcode_fields(op: u8)
    by (bit_vector)
    ensures
        0x40 <= op <= 0x7f ==> ((op - 0x40) as u8) / 8 == (op / 8) % 8 && (op % 8) & 0xf == op % 8,
        0x80 <= op <= 0x87 ==> (op / 8) % 8 == 0 && op & 0xf == op % 8,
        0x88 <= op <= 0x8f ==> (op / 8) % 8 == 1 && ((op - 8) as u8) & 0xf == op % 8,
        0x90 <= op <= 0x97 ==> (op / 8) % 8 == 2 && op & 0xf == op % 8,
        0x98 <= op <= 0x9f ==> (op / 8) % 8 == 3 && ((op - 8) as u8) & 0xf == op % 8,
        0xa0 <= op <= 0xa7 ==> (op / 8) % 8 == 4 && op & 0xf == op % 8,
        0xa8 <= op <= 0xaf ==> (op / 8) % 8 == 5 && ((op - 8) as u8) & 0xf == op % 8,
        0xb0 <= op <= 0xb7 ==> (op / 8) % 8 == 6 && op & 0xf == op % 8,
        0xb8 <= op <= 0xbf ==> (op / 8) % 8 == 7 && ((op - 8) as u8) & 0xf == op % 8,
{
}

pub(crate) proof fn lemma_word_parts(hi: u8, lo: u8)
    ensures
        high(word(hi, lo)) == hi,
        low(word(hi, lo)) == lo,
{
    assert((hi * 256 + lo) / 256 == hi && (hi * 256 + lo) % 256 == lo) by (nonlinear_arith)
        requires
            0 <= lo < 256,
            0 <= hi < 256,
    ;
}

pub(crate) proof fn lemma_boot_flags()
    by (bit_vector)
    ensures
        0xB0u8 | 0x80u8 == 0xB0u8,
        0xB0u8 | 0x20u8 == 0xB0u8,
        0xB0u8 | 0x10u8 == 0xB0u8,
{
}

/// The decimal adjustment of a packed-BCD sum, checked bit by bit: `a` is `x + y` modulo 256,
/// `lo` and `hi` are the conditions for the low and high corrections, `r` the corrected byte.
pub(crate) proof fn lemma_bcd_adjust(x: u8, y: u8, a: u8, r: u8, lo: bool, hi: bool)
    by (bit_vector)
    requires
        x & 0xf <= 9,
        x >> 4u8 <= 9,
        y & 0xf <= 9,
        y >> 4u8 <= 9,
        (x + y < 256 && a == x + y) || (x + y >= 256 && a == x + y - 256),
        lo == ((x & 0xf) + (y & 0xf) > 15 || (a & 0xf) > 9),
        hi == (x + y > 255 || a > 0x99),
        (a + (if lo { 6u8 } else { 0u8 }) + (if hi { 0x60u8 } else { 0u8 }) < 256 && r == a + (if lo {
            6u8
        } else {
            0u8
        }) + (if hi {
            0x60u8
        } else {
            0u8
        })) || (a + (if lo { 6u8 } else { 0u8 }) + (if hi { 0x60u8 } else { 0u8 }) >= 256 && r == a + (
        if lo {
            6u8
        } else {
            0u8
        }) + (if hi {
            0x60u8
        } else {
            0u8
        }) - 256),
    ensures
        r & 0xf <= 9,
        r >> 4u8 <= 9,
        (r >> 4u8) * 10 + (r & 0xf) == ((x >> 4u8) * 10 + (x & 0xf) + (y >> 4u8) * 10 + (y & 0xf)) % 100,
        hi == ((x >> 4u8) * 10 + (x & 0xf) + (y >> 4u8) * 10 + (y & 0xf) >= 100),
{
}

/// The decimal adjustment of a packed-BCD difference, checked bit by bit: `a` is `x - y` modulo
/// 256, `lo` and `hi` are the borrows out of the low digit and out of the byte, `r` the
/// corrected byte (`a` less the corrections, modulo 256).
pub(crate) proof fn lemma_bcd_adjust_sub(x: u8, y: u8, a: u8, r: u8, lo: bool, hi: bool)
    by (bit_vector)
    requires
        x & 0xf <= 9,
        x >> 4u8 <= 9,
        y & 0xf <= 9,
        y >> 4u8 <= 9,
        (x >= y && a + y == x) || (x < y && a + y == x + 256),
        lo == ((x & 0xf) < (y & 0xf)),
        hi == (x < y),
        r + (if lo { 6u8 } else { 0u8 }) + (if hi { 0x60u8 } else { 0u8 }) == a || r + (if lo {
            6u8
        } else {
            0u8
        }) + (if hi {
            0x60u8
        } else {
            0u8
        }) == a + 256,
    ensures
        r & 0xf <= 9,
        r >> 4u8 <= 9,
        (r >> 4u8) * 10 + (r & 0xf) + (y >> 4u8) * 10 + (y & 0xf) == (x >> 4u8) * 10 + (x & 0xf)
            + (if hi {
            100u8
        } else {
            0u8
        }),
        hi == ((x >> 4u8) * 10 + (x & 0xf) < (y >> 4u8) * 10 + (y & 0xf)),
{
}

} // verus!
