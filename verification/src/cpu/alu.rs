//! Register-to-register instructions: what each leaves in the register file.
use vstd::prelude::*;

use crate::bits::{asr, bit, shift_right_signed, signed, test_bit};
use crate::cpu::registers::Registers;

verus! {

/// The result of an addition with carry, and the two flags it sets.
#[derive(Clone, Copy, Debug, PartialEq, Eq, Structural)]
pub struct Sum {
    pub result: u32,
    pub carry: bool,
    pub overflow: bool,
}

/// `a + b + c`: the carry is whether the unsigned sum leaves the word, the
/// overflow whether the signed sum does.
pub open spec fn sum(a: u32, b: u32, c: bool) -> Sum {
    let k = if c {
        1int
    } else {
        0int
    };
    let wide = a + b + k;
    let exact = signed(a) + signed(b) + k;
    Sum {
        result: (wide % 0x1_0000_0000) as u32,
        carry: wide >= 0x1_0000_0000,
        overflow: exact < -0x8000_0000 || exact >= 0x8000_0000,
    }
}

/// The ones' complement of a word, by which subtraction is addition.
pub open spec fn complement(b: u32) -> u32 {
    (0xFFFF_FFFF - b) as u32
}

pub fn add_with_carry(a: u32, b: u32, c: bool) -> (out: Sum)
    ensures
        out == sum(a, b, c),
{
    let wide: u64 = a as u64 + b as u64 + (if c {
        1u64
    } else {
        0u64
    });
    let result: u32 = (wide % 0x1_0000_0000) as u32;
    let overflow = (a >= 0x8000_0000) == (b >= 0x8000_0000) && (result >= 0x8000_0000) != (a
        >= 0x8000_0000);
    Sum { result, carry: wide >= 0x1_0000_0000, overflow }
}

/// `a - b` as the processor computes it: the carry is the absence of a
/// borrow.
pub fn subtract(a: u32, b: u32) -> (out: Sum)
    ensures
        out == sum(a, complement(b), true),
{
    add_with_carry(a, 0xFFFF_FFFF - b, true)
}

/// A shifted word and the bit that fell out last.
#[derive(Clone, Copy, Debug, PartialEq, Eq, Structural)]
pub struct Shifted {
    pub value: u32,
    pub carry: bool,
}

/// Left shift by `n`, where a shift by zero keeps the carry `c`.
pub open spec fn lsl(x: u32, n: u32, c: bool) -> Shifted {
    if n == 0 {
        Shifted { value: x, carry: c }
    } else if n < 32 {
        Shifted { value: x << n, carry: bit(x, 32 - n) }
    } else {
        Shifted { value: 0, carry: n == 32 && bit(x, 0) }
    }
}

/// Logical right shift.
pub open spec fn lsr(x: u32, n: u32, c: bool) -> Shifted {
    if n == 0 {
        Shifted { value: x, carry: c }
    } else if n < 32 {
        Shifted { value: x >> n, carry: bit(x, n - 1) }
    } else {
        Shifted { value: 0, carry: n == 32 && x >= 0x8000_0000 }
    }
}

/// Arithmetic right shift; from 32 on only the sign is left.
pub open spec fn asr_c(x: u32, n: u32, c: bool) -> Shifted {
    if n == 0 {
        Shifted { value: x, carry: c }
    } else if n < 32 {
        Shifted { value: asr(x, n), carry: bit(x, n - 1) }
    } else if x >= 0x8000_0000 {
        Shifted { value: 0xFFFF_FFFF, carry: true }
    } else {
        Shifted { value: 0, carry: false }
    }
}

/// Rotation to the right; the carry is the top bit of the result.
pub open spec fn ror(x: u32, n: u32, c: bool) -> Shifted {
    let k = n % 32;
    if n == 0 {
        Shifted { value: x, carry: c }
    } else if k == 0 {
        Shifted { value: x, carry: x >= 0x8000_0000 }
    } else {
        let v = (x >> k) | (x << ((32 - k) as u32));
        Shifted { value: v, carry: v >= 0x8000_0000 }
    }
}

pub fn shift_left(x: u32, n: u32, c: bool) -> (out: Shifted)
    ensures
        out == lsl(x, n, c),
{
    if n == 0 {
        Shifted { value: x, carry: c }
    } else if n < 32 {
        Shifted { value: x << n, carry: test_bit(x, 32 - n) }
    } else {
        Shifted { value: 0, carry: n == 32 && test_bit(x, 0) }
    }
}

pub fn shift_right(x: u32, n: u32, c: bool) -> (out: Shifted)
    ensures
        out == lsr(x, n, c),
{
    if n == 0 {
        Shifted { value: x, carry: c }
    } else if n < 32 {
        Shifted { value: x >> n, carry: test_bit(x, n - 1) }
    } else {
        Shifted { value: 0, carry: n == 32 && x >= 0x8000_0000 }
    }
}

pub fn shift_right_arith(x: u32, n: u32, c: bool) -> (out: Shifted)
    ensures
        out == asr_c(x, n, c),
{
    if n == 0 {
        Shifted { value: x, carry: c }
    } else if n < 32 {
        Shifted { value: shift_right_signed(x, n), carry: test_bit(x, n - 1) }
    } else if x >= 0x8000_0000 {
        Shifted { value: 0xFFFF_FFFF, carry: true }
    } else {
        Shifted { value: 0, carry: false }
    }
}

pub fn rotate(x: u32, n: u32, c: bool) -> (out: Shifted)
    ensures
        out == ror(x, n, c),
{
    let k: u32 = n % 32;
    if n == 0 {
        Shifted { value: x, carry: c }
    } else if k == 0 {
        Shifted { value: x, carry: x >= 0x8000_0000 }
    } else {
        let v: u32 = (x >> k) | (x << (32 - k));
        Shifted { value: v, carry: v >= 0x8000_0000 }
    }
}

impl Registers {
    /// A sum written to `rd`, with all four flags.
    pub open spec fn with_sum(self, rd: int, s: Sum) -> Registers {
        self.with_reg(rd, s.result).with_sum_flags(s)
    }

    pub open spec fn with_sum_flags(self, s: Sum) -> Registers {
        self.with_nzcv(s.result >= 0x8000_0000, s.result == 0, s.carry, s.overflow)
    }

    /// A shift written to `rd`, with N, Z and C.
    pub open spec fn with_shift(self, rd: int, s: Shifted) -> Registers {
        self.with_reg(rd, s.value).with_nzc(s.value, s.carry)
    }

    /// A logical result written to `rd`, with N and Z.
    pub open spec fn with_logic(self, rd: int, v: u32) -> Registers {
        self.with_reg(rd, v).with_nz(v)
    }

    fn set_sum(&mut self, rd: usize, s: Sum)
        requires
            rd < 16,
        ensures
            *final(self) == old(self).with_sum(rd as int, s),
    {
        self.r[rd] = s.result;
        self.set_nzcv(s.result >= 0x8000_0000, s.result == 0, s.carry, s.overflow);
    }

    pub fn set_sum_flags(&mut self, s: Sum)
        ensures
            *final(self) == old(self).with_sum_flags(s),
    {
        self.set_nzcv(s.result >= 0x8000_0000, s.result == 0, s.carry, s.overflow);
    }

    fn set_shift(&mut self, rd: usize, s: Shifted)
        requires
            rd < 16,
        ensures
            *final(self) == old(self).with_shift(rd as int, s),
    {
        self.r[rd] = s.value;
        self.set_nzc(s.value, s.carry);
    }

    fn set_logic(&mut self, rd: usize, v: u32)
        requires
            rd < 16,
        ensures
            *final(self) == old(self).with_logic(rd as int, v),
    {
        self.r[rd] = v;
        self.set_nz(v);
    }

    /// Shift by an immediate. For the right shifts a count of zero stands
    /// for 32.
    pub open spec fn after_shift_imm(self, op: u16) -> Registers {
        let rd = (op % 8) as int;
        let x = self.r[(op / 8 % 8) as int];
        let n = (op / 64 % 32) as u32;
        let kind = op / 0x800 % 4;
        let n32 = if n == 0 {
            32
        } else {
            n
        };
        if kind == 0 {
            self.with_shift(rd, lsl(x, n, self.c()))
        } else if kind == 1 {
            self.with_shift(rd, lsr(x, n32, self.c()))
        } else {
            self.with_shift(rd, asr_c(x, n32, self.c()))
        }
    }

    pub fn shift_imm(&mut self, op: u16)
        ensures
            *final(self) == old(self).after_shift_imm(op),
    {
        let rd: usize = (op % 8) as usize;
        let x: u32 = self.r[(op / 8 % 8) as usize];
        let n: u32 = (op / 64 % 32) as u32;
        let n32: u32 = if n == 0 {
            32
        } else {
            n
        };
        let c = self.flag_c();
        let s = match op / 0x800 % 4 {
            0 => shift_left(x, n, c),
            1 => shift_right(x, n32, c),
            _ => shift_right_arith(x, n32, c),
        };
        self.set_shift(rd, s);
    }

    /// Three-operand add and subtract, of a register or a three-bit
    /// immediate.
    pub open spec fn after_add_sub(self, op: u16) -> Registers {
        let rd = (op % 8) as int;
        let a = self.r[(op / 8 % 8) as int];
        let field = op / 64 % 8;
        let b = if op / 0x400 % 2 == 1 {
            field as u32
        } else {
            self.r[field as int]
        };
        if op / 0x200 % 2 == 0 {
            self.with_sum(rd, sum(a, b, false))
        } else {
            self.with_sum(rd, sum(a, complement(b), true))
        }
    }

    pub fn add_sub(&mut self, op: u16)
        ensures
            *final(self) == old(self).after_add_sub(op),
    {
        let rd: usize = (op % 8) as usize;
        let a: u32 = self.r[(op / 8 % 8) as usize];
        let field: u16 = op / 64 % 8;
        let b: u32 = if op / 0x400 % 2 == 1 {
            field as u32
        } else {
            self.r[field as usize]
        };
        let s = if op / 0x200 % 2 == 0 {
            add_with_carry(a, b, false)
        } else {
            subtract(a, b)
        };
        self.set_sum(rd, s);
    }

    /// Move, compare, add and subtract of an eight-bit immediate.
    pub open spec fn after_imm8(self, op: u16) -> Registers {
        let rd = (op / 0x100 % 8) as int;
        let imm = (op % 0x100) as u32;
        let kind = op / 0x800 % 4;
        let a = self.r[rd];
        if kind == 0 {
            self.with_logic(rd, imm)
        } else if kind == 1 {
            self.with_sum_flags(sum(a, complement(imm), true))
        } else if kind == 2 {
            self.with_sum(rd, sum(a, imm, false))
        } else {
            self.with_sum(rd, sum(a, complement(imm), true))
        }
    }

    pub fn imm8(&mut self, op: u16)
        ensures
            *final(self) == old(self).after_imm8(op),
    {
        let rd: usize = (op / 0x100 % 8) as usize;
        let imm: u32 = (op % 0x100) as u32;
        let a: u32 = self.r[rd];
        match op / 0x800 % 4 {
            0 => {
                self.set_logic(rd, imm);
            },
            1 => {
                self.set_sum_flags(subtract(a, imm));
            },
            2 => {
                self.set_sum(rd, add_with_carry(a, imm, false));
            },
            _ => {
                self.set_sum(rd, subtract(a, imm));
            },
        }
    }

    /// The sixteen two-operand instructions on low registers.
    pub open spec fn after_data_processing(self, op: u16) -> Registers {
        let rd = (op % 8) as int;
        let a = self.r[rd];
        let b = self.r[(op / 8 % 8) as int];
        let n = b % 0x100;
        let kind = op / 64 % 16;
        if kind == 0 {
            self.with_logic(rd, a & b)
        } else if kind == 1 {
            self.with_logic(rd, a ^ b)
        } else if kind == 2 {
            self.with_shift(rd, lsl(a, n, self.c()))
        } else if kind == 3 {
            self.with_shift(rd, lsr(a, n, self.c()))
        } else if kind == 4 {
            self.with_shift(rd, asr_c(a, n, self.c()))
        } else if kind == 5 {
            self.with_sum(rd, sum(a, b, self.c()))
        } else if kind == 6 {
            self.with_sum(rd, sum(a, complement(b), self.c()))
        } else if kind == 7 {
            self.with_shift(rd, ror(a, n, self.c()))
        } else if kind == 8 {
            self.with_nz(a & b)
        } else if kind == 9 {
            self.with_sum(rd, sum(0, complement(b), true))
        } else if kind == 10 {
            self.with_sum_flags(sum(a, complement(b), true))
        } else if kind == 11 {
            self.with_sum_flags(sum(a, b, false))
        } else if kind == 12 {
            self.with_logic(rd, a | b)
        } else if kind == 13 {
            self.with_logic(rd, ((a * b) % 0x1_0000_0000) as u32)
        } else if kind == 14 {
            self.with_logic(rd, a & !b)
        } else {
            self.with_logic(rd, !b)
        }
    }

    pub fn data_processing(&mut self, op: u16)
        ensures
            *final(self) == old(self).after_data_processing(op),
    {
        let rd: usize = (op % 8) as usize;
        let a: u32 = self.r[rd];
        let b: u32 = self.r[(op / 8 % 8) as usize];
        let n: u32 = b % 0x100;
        let c = self.flag_c();
        match op / 64 % 16 {
            0 => {
                self.set_logic(rd, a & b);
            },
            1 => {
                self.set_logic(rd, a ^ b);
            },
            2 => {
                self.set_shift(rd, shift_left(a, n, c));
            },
            3 => {
                self.set_shift(rd, shift_right(a, n, c));
            },
            4 => {
                self.set_shift(rd, shift_right_arith(a, n, c));
            },
            5 => {
                self.set_sum(rd, add_with_carry(a, b, c));
            },
            6 => {
                self.set_sum(rd, add_with_carry(a, 0xFFFF_FFFF - b, c));
            },
            7 => {
                self.set_shift(rd, rotate(a, n, c));
            },
            8 => {
                self.set_nz(a & b);
            },
            9 => {
                self.set_sum(rd, subtract(0, b));
            },
            10 => {
                self.set_sum_flags(subtract(a, b));
            },
            11 => {
                self.set_sum_flags(add_with_carry(a, b, false));
            },
            12 => {
                self.set_logic(rd, a | b);
            },
            13 => {
                self.set_logic(rd, a.wrapping_mul(b));
            },
            14 => {
                self.set_logic(rd, a & !b);
            },
            _ => {
                self.set_logic(rd, !b);
            },
        }
    }

    /// Sign and zero extension of a byte or halfword.
    pub open spec fn after_extend(self, op: u16) -> Registers {
        let rd = (op % 8) as int;
        let x = self.r[(op / 8 % 8) as int];
        let kind = op / 64 % 4;
        self.with_reg(
            rd,
            if kind == 0 {
                sign_extend16(x)
            } else if kind == 1 {
                sign_extend8(x)
            } else if kind == 2 {
                x % 0x1_0000
            } else {
                x % 0x100
            },
        )
    }

    pub fn extend(&mut self, op: u16)
        ensures
            *final(self) == old(self).after_extend(op),
    {
        let rd: usize = (op % 8) as usize;
        let x: u32 = self.r[(op / 8 % 8) as usize];
        self.r[rd] = match op / 64 % 4 {
            0 => extend16(x),
            1 => extend8(x),
            2 => x % 0x1_0000,
            _ => x % 0x100,
        };
    }

    /// Byte reversal of a word, of each halfword, and of the low halfword
    /// with its sign.
    pub open spec fn after_reverse(self, op: u16) -> Registers {
        let rd = (op % 8) as int;
        let x = self.r[(op / 8 % 8) as int];
        let kind = op / 64 % 4;
        self.with_reg(
            rd,
            if kind == 0 {
                rev(x)
            } else if kind == 1 {
                rev16(x)
            } else {
                sign_extend16(rev16(x))
            },
        )
    }

    pub fn reverse(&mut self, op: u16)
        ensures
            *final(self) == old(self).after_reverse(op),
    {
        let rd: usize = (op % 8) as usize;
        let x: u32 = self.r[(op / 8 % 8) as usize];
        self.r[rd] = match op / 64 % 4 {
            0 => reverse_bytes(x),
            1 => reverse_halves(x),
            _ => extend16(reverse_halves(x)),
        };
    }
}

/// A byte read as a signed number and widened.
pub open spec fn sign_extend8(x: u32) -> u32 {
    let b = x % 0x100;
    if b >= 0x80 {
        (0xFFFF_FF00 + b) as u32
    } else {
        b
    }
}

pub open spec fn sign_extend16(x: u32) -> u32 {
    let h = x % 0x1_0000;
    if h >= 0x8000 {
        (0xFFFF_0000 + h) as u32
    } else {
        h
    }
}

pub fn extend8(x: u32) -> (out: u32)
    ensures
        out == sign_extend8(x),
{
    let b: u32 = x % 0x100;
    if b >= 0x80 {
        0xFFFF_FF00 + b
    } else {
        b
    }
}

pub fn extend16(x: u32) -> (out: u32)
    ensures
        out == sign_extend16(x),
{
    let h: u32 = x % 0x1_0000;
    if h >= 0x8000 {
        0xFFFF_0000 + h
    } else {
        h
    }
}

/// The four bytes of a word in the opposite order.
pub open spec fn rev(x: u32) -> u32 {
    (x % 0x100 * 0x100_0000 + x / 0x100 % 0x100 * 0x1_0000 + x / 0x1_0000 % 0x100 * 0x100 + x / 0x100_0000) as u32
}

/// The two bytes of each halfword exchanged.
pub open spec fn rev16(x: u32) -> u32 {
    (x / 0x1_0000 % 0x100 * 0x100_0000 + x / 0x100_0000 * 0x1_0000 + x % 0x100 * 0x100 + x / 0x100 % 0x100) as u32
}

fn reverse_bytes(x: u32) -> (out: u32)
    ensures
        out == rev(x),
{
    x % 0x100 * 0x100_0000 + x / 0x100 % 0x100 * 0x1_0000 + x / 0x1_0000 % 0x100 * 0x100 + x / 0x100_0000
}

fn reverse_halves(x: u32) -> (out: u32)
    ensures
        out == rev16(x),
{
    x / 0x1_0000 % 0x100 * 0x100_0000 + x / 0x100_0000 * 0x1_0000 + x % 0x100 * 0x100 + x / 0x100 % 0x100
}

/// After a comparison the condition codes order the operands: equal, and
/// below or not, as unsigned and as signed numbers.
pub proof fn law_compare_orders_operands(r: Registers, a: u32, b: u32)
    ensures
        ({
            let after = r.with_sum_flags(sum(a, complement(b), true));
            &&& after.holds(0) == (a == b)
            &&& after.holds(1) == (a != b)
            &&& after.holds(2) == (a >= b)
            &&& after.holds(3) == (a < b)
            &&& after.holds(8) == (a > b)
            &&& after.holds(9) == (a <= b)
            &&& after.holds(10) == (signed(a) >= signed(b))
            &&& after.holds(11) == (signed(a) < signed(b))
            &&& after.holds(12) == (signed(a) > signed(b))
            &&& after.holds(13) == (signed(a) <= signed(b))
        }),
{
    let s = sum(a, complement(b), true);
    crate::cpu::registers::lemma_with_flags(
        r.xpsr,
        s.result >= 0x8000_0000,
        s.result == 0,
        s.carry,
        s.overflow,
    );
}

/// Reversing the bytes twice gives the word back, and so does reversing each
/// halfword twice.
pub proof fn law_byte_reversal_is_an_involution(x: u32)
    by (bit_vector)
    ensures
        rev(rev(x)) == x,
        rev16(rev16(x)) == x,
{
}

} // verus!
