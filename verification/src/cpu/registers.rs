//! The ARMv6-M register file: sixteen core registers, the program status
//! word, the two banked stack pointers and the special registers.
use vstd::array::{spec_array_fill_for_copy_type, spec_array_update};
use vstd::prelude::*;

verus! {

/// Negative flag of the program status word.
pub const XPSR_N: u32 = 0x8000_0000;
/// Zero flag.
pub const XPSR_Z: u32 = 0x4000_0000;
/// Carry flag.
pub const XPSR_C: u32 = 0x2000_0000;
/// Overflow flag.
pub const XPSR_V: u32 = 0x1000_0000;
/// Thumb bit.
pub const XPSR_T: u32 = 0x0100_0000;

#[derive(Clone, Copy, Debug, PartialEq, Eq)]
pub struct Registers {
    pub r: [u32; 16],
    pub xpsr: u32,
    pub msp: u32,
    pub psp: u32,
    pub primask: u32,
    pub control: u32,
}

/// `xpsr` with the four condition flags replaced and every other bit kept.
pub open spec fn with_flags(xpsr: u32, n: bool, z: bool, c: bool, v: bool) -> u32 {
    (xpsr & 0x0FFF_FFFF) | (if n { XPSR_N } else { 0 }) | (if z { XPSR_Z } else { 0 }) | (if c {
        XPSR_C
    } else {
        0
    }) | (if v { XPSR_V } else { 0 })
}

/// `xpsr` with the bits of `mask` set or cleared.
pub open spec fn with_mask(xpsr: u32, mask: u32, on: bool) -> u32 {
    if on {
        xpsr | mask
    } else {
        xpsr & !mask
    }
}

/// The bit facts behind the flags: writing all four, writing one, and words
/// that agree outside one.
proof fn lemma_flag_words(xpsr: u32, b: u32, n: bool, z: bool, c: bool, v: bool)
    by (bit_vector)
    ensures
        ((xpsr & 0x0FFF_FFFF) | (if n { 0x8000_0000u32 } else { 0 }) | (if z { 0x4000_0000u32 } else { 0 }) | (if c { 0x2000_0000u32 } else { 0 }) | (if v { 0x1000_0000u32 } else { 0 })) & 0x8000_0000 != 0 <==> n,
        ((xpsr & 0x0FFF_FFFF) | (if n { 0x8000_0000u32 } else { 0 }) | (if z { 0x4000_0000u32 } else { 0 }) | (if c { 0x2000_0000u32 } else { 0 }) | (if v { 0x1000_0000u32 } else { 0 })) & 0x4000_0000 != 0 <==> z,
        ((xpsr & 0x0FFF_FFFF) | (if n { 0x8000_0000u32 } else { 0 }) | (if z { 0x4000_0000u32 } else { 0 }) | (if c { 0x2000_0000u32 } else { 0 }) | (if v { 0x1000_0000u32 } else { 0 })) & 0x2000_0000 != 0 <==> c,
        ((xpsr & 0x0FFF_FFFF) | (if n { 0x8000_0000u32 } else { 0 }) | (if z { 0x4000_0000u32 } else { 0 }) | (if c { 0x2000_0000u32 } else { 0 }) | (if v { 0x1000_0000u32 } else { 0 })) & 0x1000_0000 != 0 <==> v,
        ((xpsr & 0x0FFF_FFFF) | (if n { 0x8000_0000u32 } else { 0 }) | (if z { 0x4000_0000u32 } else { 0 }) | (if c { 0x2000_0000u32 } else { 0 }) | (if v { 0x1000_0000u32 } else { 0 })) & 0x0FFF_FFFF == xpsr & 0x0FFF_FFFF,
        (xpsr | 0x8000_0000) & 0x8000_0000 != 0 && (xpsr & !0x8000_0000u32) & 0x8000_0000 == 0,
        (xpsr | 0x4000_0000) & 0x4000_0000 != 0 && (xpsr & !0x4000_0000u32) & 0x4000_0000 == 0,
        (xpsr | 0x2000_0000) & 0x2000_0000 != 0 && (xpsr & !0x2000_0000u32) & 0x2000_0000 == 0,
        (xpsr | 0x1000_0000) & 0x1000_0000 != 0 && (xpsr & !0x1000_0000u32) & 0x1000_0000 == 0,
        (xpsr | 0x8000_0000) & 0x7FFF_FFFF == xpsr & 0x7FFF_FFFF && (xpsr & !0x8000_0000u32) & 0x7FFF_FFFF == xpsr & 0x7FFF_FFFF,
        (xpsr | 0x4000_0000) & 0xBFFF_FFFF == xpsr & 0xBFFF_FFFF && (xpsr & !0x4000_0000u32) & 0xBFFF_FFFF == xpsr & 0xBFFF_FFFF,
        (xpsr | 0x2000_0000) & 0xDFFF_FFFF == xpsr & 0xDFFF_FFFF && (xpsr & !0x2000_0000u32) & 0xDFFF_FFFF == xpsr & 0xDFFF_FFFF,
        (xpsr | 0x1000_0000) & 0xEFFF_FFFF == xpsr & 0xEFFF_FFFF && (xpsr & !0x1000_0000u32) & 0xEFFF_FFFF == xpsr & 0xEFFF_FFFF,
        xpsr & 0x7FFF_FFFF == b & 0x7FFF_FFFF ==> (xpsr & 0x4000_0000 == b & 0x4000_0000 && xpsr & 0x2000_0000 == b & 0x2000_0000 && xpsr & 0x1000_0000 == b & 0x1000_0000),
        xpsr & 0xBFFF_FFFF == b & 0xBFFF_FFFF ==> (xpsr & 0x8000_0000 == b & 0x8000_0000 && xpsr & 0x2000_0000 == b & 0x2000_0000 && xpsr & 0x1000_0000 == b & 0x1000_0000),
        xpsr & 0xDFFF_FFFF == b & 0xDFFF_FFFF ==> (xpsr & 0x8000_0000 == b & 0x8000_0000 && xpsr & 0x4000_0000 == b & 0x4000_0000 && xpsr & 0x1000_0000 == b & 0x1000_0000),
        xpsr & 0xEFFF_FFFF == b & 0xEFFF_FFFF ==> (xpsr & 0x8000_0000 == b & 0x8000_0000 && xpsr & 0x4000_0000 == b & 0x4000_0000 && xpsr & 0x2000_0000 == b & 0x2000_0000),
{
}

/// Writing the four flags sets each of them to what was asked and touches
/// nothing below them.
pub proof fn lemma_with_flags(xpsr: u32, n: bool, z: bool, c: bool, v: bool)
    ensures
        ((xpsr & 0x0FFF_FFFF) | (if n { 0x8000_0000u32 } else { 0 }) | (if z { 0x4000_0000u32 } else { 0 }) | (if c { 0x2000_0000u32 } else { 0 }) | (if v { 0x1000_0000u32 } else { 0 })) & 0x8000_0000 != 0 <==> n,
        ((xpsr & 0x0FFF_FFFF) | (if n { 0x8000_0000u32 } else { 0 }) | (if z { 0x4000_0000u32 } else { 0 }) | (if c { 0x2000_0000u32 } else { 0 }) | (if v { 0x1000_0000u32 } else { 0 })) & 0x4000_0000 != 0 <==> z,
        ((xpsr & 0x0FFF_FFFF) | (if n { 0x8000_0000u32 } else { 0 }) | (if z { 0x4000_0000u32 } else { 0 }) | (if c { 0x2000_0000u32 } else { 0 }) | (if v { 0x1000_0000u32 } else { 0 })) & 0x2000_0000 != 0 <==> c,
        ((xpsr & 0x0FFF_FFFF) | (if n { 0x8000_0000u32 } else { 0 }) | (if z { 0x4000_0000u32 } else { 0 }) | (if c { 0x2000_0000u32 } else { 0 }) | (if v { 0x1000_0000u32 } else { 0 })) & 0x1000_0000 != 0 <==> v,
        ((xpsr & 0x0FFF_FFFF) | (if n { 0x8000_0000u32 } else { 0 }) | (if z { 0x4000_0000u32 } else { 0 }) | (if c { 0x2000_0000u32 } else { 0 }) | (if v { 0x1000_0000u32 } else { 0 })) & 0x0FFF_FFFF == xpsr & 0x0FFF_FFFF,
{
    lemma_flag_words(xpsr, 0, n, z, c, v);
}

/// Single-flag writes do not disturb the other flags.
pub proof fn lemma_with_mask(x: u32)
    ensures
        (x | 0x8000_0000) & 0x8000_0000 != 0 && (x & !0x8000_0000u32) & 0x8000_0000 == 0,
        (x | 0x4000_0000) & 0x4000_0000 != 0 && (x & !0x4000_0000u32) & 0x4000_0000 == 0,
        (x | 0x2000_0000) & 0x2000_0000 != 0 && (x & !0x2000_0000u32) & 0x2000_0000 == 0,
        (x | 0x1000_0000) & 0x1000_0000 != 0 && (x & !0x1000_0000u32) & 0x1000_0000 == 0,
        (x | 0x8000_0000) & 0x7FFF_FFFF == x & 0x7FFF_FFFF && (x & !0x8000_0000u32) & 0x7FFF_FFFF == x & 0x7FFF_FFFF,
        (x | 0x4000_0000) & 0xBFFF_FFFF == x & 0xBFFF_FFFF && (x & !0x4000_0000u32) & 0xBFFF_FFFF == x & 0xBFFF_FFFF,
        (x | 0x2000_0000) & 0xDFFF_FFFF == x & 0xDFFF_FFFF && (x & !0x2000_0000u32) & 0xDFFF_FFFF == x & 0xDFFF_FFFF,
        (x | 0x1000_0000) & 0xEFFF_FFFF == x & 0xEFFF_FFFF && (x & !0x1000_0000u32) & 0xEFFF_FFFF == x & 0xEFFF_FFFF,
{
    lemma_flag_words(x, 0, false, false, false, false);
}

impl Registers {
    /// The register file as it comes out of reset.
    pub open spec fn at_reset() -> Registers {
        Registers {
            r: spec_array_fill_for_copy_type::<u32, 16>(0),
            xpsr: XPSR_T,
            msp: 0,
            psp: 0,
            primask: 0,
            control: 0,
        }
    }

    pub open spec fn n(self) -> bool {
        self.xpsr & XPSR_N != 0
    }

    pub open spec fn z(self) -> bool {
        self.xpsr & XPSR_Z != 0
    }

    pub open spec fn c(self) -> bool {
        self.xpsr & XPSR_C != 0
    }

    pub open spec fn v(self) -> bool {
        self.xpsr & XPSR_V != 0
    }

    /// The exception number field of the status word; zero in thread mode.
    pub open spec fn exception_number(self) -> u32 {
        self.xpsr & 0x1FF
    }

    pub open spec fn in_handler(self) -> bool {
        self.exception_number() != 0
    }

    /// Register `i` replaced by `v`.
    pub open spec fn with_reg(self, i: int, v: u32) -> Registers {
        Registers { r: spec_array_update(self.r, i, v), ..self }
    }

    /// All four flags replaced.
    pub open spec fn with_nzcv(self, n: bool, z: bool, c: bool, v: bool) -> Registers {
        Registers { xpsr: with_flags(self.xpsr, n, z, c, v), ..self }
    }

    /// N and Z taken from `value`, C given, V kept.
    pub open spec fn with_nzc(self, value: u32, c: bool) -> Registers {
        self.with_nzcv(value >= 0x8000_0000, value == 0, c, self.v())
    }

    /// N and Z taken from `value`, C and V kept.
    pub open spec fn with_nz(self, value: u32) -> Registers {
        self.with_nzcv(value >= 0x8000_0000, value == 0, self.c(), self.v())
    }

    /// The program counter moved to `addr` with its lowest bit cleared.
    pub open spec fn branched(self, addr: u32) -> Registers {
        self.with_reg(15, addr & 0xFFFF_FFFE)
    }

    /// Whether the process stack is the one `r13` stands for.
    pub open spec fn uses_psp(self) -> bool {
        self.control & 2 != 0 && self.exception_number() == 0
    }

    /// `r13` written through to the bank that it stands for.
    pub open spec fn sp_banked(self) -> Registers {
        if self.uses_psp() {
            Registers { psp: self.r[13], ..self }
        } else {
            Registers { msp: self.r[13], ..self }
        }
    }

    /// `r13` loaded from the bank that it stands for.
    pub open spec fn sp_unbanked(self) -> Registers {
        if self.uses_psp() {
            self.with_reg(13, self.psp)
        } else {
            self.with_reg(13, self.msp)
        }
    }

    /// The sixteen ARM condition codes.
    pub open spec fn holds(self, cond: u8) -> bool {
        if cond == 0 {
            self.z()
        } else if cond == 1 {
            !self.z()
        } else if cond == 2 {
            self.c()
        } else if cond == 3 {
            !self.c()
        } else if cond == 4 {
            self.n()
        } else if cond == 5 {
            !self.n()
        } else if cond == 6 {
            self.v()
        } else if cond == 7 {
            !self.v()
        } else if cond == 8 {
            self.c() && !self.z()
        } else if cond == 9 {
            !self.c() || self.z()
        } else if cond == 10 {
            self.n() == self.v()
        } else if cond == 11 {
            self.n() != self.v()
        } else if cond == 12 {
            !self.z() && self.n() == self.v()
        } else if cond == 13 {
            self.z() || self.n() != self.v()
        } else {
            true
        }
    }

    pub fn new() -> (regs: Registers)
        ensures
            regs == Registers::at_reset(),
    {
        Registers { r: [0;16], xpsr: XPSR_T, msp: 0, psp: 0, primask: 0, control: 0 }
    }

    pub fn flag_n(&self) -> (out: bool)
        ensures
            out == self.n(),
    {
        self.xpsr & XPSR_N != 0
    }

    pub fn flag_z(&self) -> (out: bool)
        ensures
            out == self.z(),
    {
        self.xpsr & XPSR_Z != 0
    }

    pub fn flag_c(&self) -> (out: bool)
        ensures
            out == self.c(),
    {
        self.xpsr & XPSR_C != 0
    }

    pub fn flag_v(&self) -> (out: bool)
        ensures
            out == self.v(),
    {
        self.xpsr & XPSR_V != 0
    }

    pub fn set_flag_n(&mut self, on: bool)
        ensures
            *final(self) == (Registers { xpsr: with_mask(old(self).xpsr, XPSR_N, on), ..*old(self) }),
            final(self).n() == on,
            final(self).z() == old(self).z() && final(self).c() == old(self).c() && final(self).v() == old(self).v(),
    {
        proof {
            lemma_with_mask(self.xpsr);
            lemma_flags_of_masked(self.xpsr, with_mask(self.xpsr, XPSR_N, on));
        }
        self.xpsr = if on { self.xpsr | XPSR_N } else { self.xpsr & !XPSR_N };
    }

    pub fn set_flag_z(&mut self, on: bool)
        ensures
            *final(self) == (Registers { xpsr: with_mask(old(self).xpsr, XPSR_Z, on), ..*old(self) }),
            final(self).z() == on,
            final(self).n() == old(self).n() && final(self).c() == old(self).c() && final(self).v() == old(self).v(),
    {
        proof {
            lemma_with_mask(self.xpsr);
            lemma_flags_of_masked(self.xpsr, with_mask(self.xpsr, XPSR_Z, on));
        }
        self.xpsr = if on { self.xpsr | XPSR_Z } else { self.xpsr & !XPSR_Z };
    }

    pub fn set_flag_c(&mut self, on: bool)
        ensures
            *final(self) == (Registers { xpsr: with_mask(old(self).xpsr, XPSR_C, on), ..*old(self) }),
            final(self).c() == on,
            final(self).n() == old(self).n() && final(self).z() == old(self).z() && final(self).v() == old(self).v(),
    {
        proof {
            lemma_with_mask(self.xpsr);
            lemma_flags_of_masked(self.xpsr, with_mask(self.xpsr, XPSR_C, on));
        }
        self.xpsr = if on { self.xpsr | XPSR_C } else { self.xpsr & !XPSR_C };
    }

    pub fn set_flag_v(&mut self, on: bool)
        ensures
            *final(self) == (Registers { xpsr: with_mask(old(self).xpsr, XPSR_V, on), ..*old(self) }),
            final(self).v() == on,
            final(self).n() == old(self).n() && final(self).z() == old(self).z() && final(self).c() == old(self).c(),
    {
        proof {
            lemma_with_mask(self.xpsr);
            lemma_flags_of_masked(self.xpsr, with_mask(self.xpsr, XPSR_V, on));
        }
        self.xpsr = if on { self.xpsr | XPSR_V } else { self.xpsr & !XPSR_V };
    }

    /// Replaces all four flags at once.
    pub fn set_nzcv(&mut self, n: bool, z: bool, c: bool, v: bool)
        ensures
            *final(self) == old(self).with_nzcv(n, z, c, v),
            final(self).n() == n && final(self).z() == z && final(self).c() == c && final(self).v() == v,
    {
        proof {
            lemma_with_flags(self.xpsr, n, z, c, v);
        }
        self.xpsr = (self.xpsr & 0x0FFF_FFFF) | (if n { XPSR_N } else { 0 }) | (if z { XPSR_Z } else { 0 }) | (if c {
            XPSR_C
        } else {
            0
        }) | (if v { XPSR_V } else { 0 });
    }

    /// N and Z from a result; C and V stay.
    pub fn set_nz(&mut self, value: u32)
        ensures
            *final(self) == old(self).with_nz(value),
            final(self).n() == (value >= 0x8000_0000),
            final(self).z() == (value == 0),
            final(self).c() == old(self).c() && final(self).v() == old(self).v(),
    {
        let c = self.flag_c();
        let v = self.flag_v();
        self.set_nzcv(value >= 0x8000_0000, value == 0, c, v);
    }

    /// N and Z from a result, and a carry; V stays.
    pub fn set_nzc(&mut self, value: u32, c: bool)
        ensures
            *final(self) == old(self).with_nzc(value, c),
            final(self).v() == old(self).v(),
    {
        let v = self.flag_v();
        self.set_nzcv(value >= 0x8000_0000, value == 0, c, v);
    }

    pub fn condition_passed(&self, cond: u8) -> (out: bool)
        ensures
            out == self.holds(cond),
    {
        match cond {
            0 => self.flag_z(),
            1 => !self.flag_z(),
            2 => self.flag_c(),
            3 => !self.flag_c(),
            4 => self.flag_n(),
            5 => !self.flag_n(),
            6 => self.flag_v(),
            7 => !self.flag_v(),
            8 => self.flag_c() && !self.flag_z(),
            9 => !self.flag_c() || self.flag_z(),
            10 => self.flag_n() == self.flag_v(),
            11 => self.flag_n() != self.flag_v(),
            12 => !self.flag_z() && self.flag_n() == self.flag_v(),
            13 => self.flag_z() || self.flag_n() != self.flag_v(),
            _ => true,
        }
    }

    pub fn active_sp_is_psp(&self) -> (out: bool)
        ensures
            out == self.uses_psp(),
    {
        self.control & 2 != 0 && self.xpsr & 0x1FF == 0
    }

    pub fn sync_sp_to_banked(&mut self)
        ensures
            *final(self) == old(self).sp_banked(),
    {
        if self.active_sp_is_psp() {
            self.psp = self.r[13];
        } else {
            self.msp = self.r[13];
        }
    }

    pub fn sync_sp_from_banked(&mut self)
        ensures
            *final(self) == old(self).sp_unbanked(),
    {
        if self.active_sp_is_psp() {
            self.r[13] = self.psp;
        } else {
            self.r[13] = self.msp;
        }
    }

    pub fn pc(&self) -> (out: u32)
        ensures
            out == self.r[15],
    {
        self.r[15]
    }

    pub fn set_pc(&mut self, addr: u32)
        ensures
            *final(self) == old(self).with_reg(15, addr),
    {
        self.r[15] = addr;
    }

    pub fn sp(&self) -> (out: u32)
        ensures
            out == self.r[13],
    {
        self.r[13]
    }

    pub fn set_sp(&mut self, addr: u32)
        ensures
            *final(self) == old(self).with_reg(13, addr),
    {
        self.r[13] = addr;
    }

    pub fn lr(&self) -> (out: u32)
        ensures
            out == self.r[14],
    {
        self.r[14]
    }

    pub fn set_lr(&mut self, addr: u32)
        ensures
            *final(self) == old(self).with_reg(14, addr),
    {
        self.r[14] = addr;
    }

    pub fn ipsr(&self) -> (out: u32)
        ensures
            out == self.exception_number(),
    {
        self.xpsr & 0x1FF
    }
}

/// Words that agree outside one flag agree on the other flags.
proof fn lemma_flags_of_masked(a: u32, b: u32)
    ensures
        a & 0x7FFF_FFFF == b & 0x7FFF_FFFF ==> (a & 0x4000_0000 == b & 0x4000_0000 && a & 0x2000_0000 == b & 0x2000_0000 && a & 0x1000_0000 == b & 0x1000_0000),
        a & 0xBFFF_FFFF == b & 0xBFFF_FFFF ==> (a & 0x8000_0000 == b & 0x8000_0000 && a & 0x2000_0000 == b & 0x2000_0000 && a & 0x1000_0000 == b & 0x1000_0000),
        a & 0xDFFF_FFFF == b & 0xDFFF_FFFF ==> (a & 0x8000_0000 == b & 0x8000_0000 && a & 0x4000_0000 == b & 0x4000_0000 && a & 0x1000_0000 == b & 0x1000_0000),
        a & 0xEFFF_FFFF == b & 0xEFFF_FFFF ==> (a & 0x8000_0000 == b & 0x8000_0000 && a & 0x4000_0000 == b & 0x4000_0000 && a & 0x2000_0000 == b & 0x2000_0000),
{
    lemma_flag_words(a, b, false, false, false, false);
}

} // verus!
