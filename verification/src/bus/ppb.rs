//! The system control block of one core, on its private peripheral bus.
use vstd::array::{spec_array_fill_for_copy_type, spec_array_update};
use vstd::prelude::*;

verus! {

pub const ICSR_PENDSVSET: u32 = 0x1000_0000;
pub const ICSR_PENDSVCLR: u32 = 0x0800_0000;
pub const ICSR_PENDSTSET: u32 = 0x0400_0000;
pub const ICSR_PENDSTCLR: u32 = 0x0200_0000;

/// Processor identification: Cortex-M0+ r0p1.
pub const CPUID: u32 = 0x410C_C601;

#[derive(Clone, Copy, Debug, PartialEq, Eq)]
pub struct Ppb {
    pub vtor: u32,
    pub icsr: u32,
    /// Priorities of exceptions 4 to 15.
    pub shpr: [u8; 12],
    /// One bit for each exception that has been entered and not left.
    pub active: u64,
}

/// The bit that stands for exception `n`; numbers past the last have none.
pub open spec fn active_bit(n: u32) -> u64 {
    if n < 64 {
        1u64 << (n as u64)
    } else {
        0
    }
}

impl Ppb {
    pub open spec fn at_reset() -> Ppb {
        Ppb { vtor: 0, icsr: 0, shpr: spec_array_fill_for_copy_type::<u8, 12>(0), active: 0 }
    }

    pub open spec fn with_active(self, n: u32) -> Ppb {
        Ppb { active: self.active | active_bit(n), ..self }
    }

    pub open spec fn without_active(self, n: u32) -> Ppb {
        Ppb { active: self.active & !active_bit(n), ..self }
    }

    pub open spec fn priority_word(self, at: int) -> u32 {
        (self.shpr[at] + 0x100 * self.shpr[at + 1] + 0x1_0000 * self.shpr[at + 2] + 0x100_0000
            * self.shpr[at + 3]) as u32
    }

    pub open spec fn with_priority_word(self, at: int, val: u32) -> Ppb {
        Ppb {
            shpr: spec_array_update(
                spec_array_update(
                    spec_array_update(
                        spec_array_update(self.shpr, at, ((val % 0x100) as u8) & 0xC0),
                        at + 1,
                        ((val / 0x100 % 0x100) as u8) & 0xC0,
                    ),
                    at + 2,
                    ((val / 0x1_0000 % 0x100) as u8) & 0xC0,
                ),
                at + 3,
                ((val / 0x100_0000) as u8) & 0xC0,
            ),
            ..self
        }
    }

    pub open spec fn word_at(self, addr: u32) -> u32 {
        if addr == 0xE000_ED00 {
            CPUID
        } else if addr == 0xE000_ED04 {
            self.icsr
        } else if addr == 0xE000_ED08 {
            self.vtor
        } else if addr == 0xE000_ED1C {
            self.priority_word(4)
        } else if addr == 0xE000_ED20 {
            self.priority_word(8)
        } else {
            0
        }
    }

    /// The pend latches after a write to the interrupt control word: the
    /// set bits latch, then the clear bits drop.
    pub open spec fn icsr_after(self, val: u32) -> u32 {
        let a = if val & ICSR_PENDSVSET != 0 {
            self.icsr | ICSR_PENDSVSET
        } else {
            self.icsr
        };
        let b = if val & ICSR_PENDSVCLR != 0 {
            a & !ICSR_PENDSVSET
        } else {
            a
        };
        let c = if val & ICSR_PENDSTSET != 0 {
            b | ICSR_PENDSTSET
        } else {
            b
        };
        if val & ICSR_PENDSTCLR != 0 {
            c & !ICSR_PENDSTSET
        } else {
            c
        }
    }

    pub open spec fn after_write(self, addr: u32, val: u32) -> Ppb {
        if addr == 0xE000_ED04 {
            Ppb { icsr: self.icsr_after(val), ..self }
        } else if addr == 0xE000_ED08 {
            Ppb { vtor: val & 0xFFFF_FF00, ..self }
        } else if addr == 0xE000_ED1C {
            self.with_priority_word(4, val)
        } else if addr == 0xE000_ED20 {
            self.with_priority_word(8, val)
        } else {
            self
        }
    }

    pub fn new() -> (p: Ppb)
        ensures
            p == Ppb::at_reset(),
    {
        Ppb { vtor: 0, icsr: 0, shpr: [0;12], active: 0 }
    }

    pub fn mark_active(&mut self, n: u32)
        ensures
            *final(self) == old(self).with_active(n),
    {
        let m: u64 = if n < 64 {
            1u64 << (n as u64)
        } else {
            0
        };
        self.active = self.active | m;
    }

    pub fn clear_active(&mut self, n: u32)
        ensures
            *final(self) == old(self).without_active(n),
    {
        let m: u64 = if n < 64 {
            1u64 << (n as u64)
        } else {
            0
        };
        self.active = self.active & !m;
    }

    pub fn any_active(&self) -> (out: bool)
        ensures
            out == (self.active != 0),
    {
        self.active != 0
    }

    pub fn read32(&self, addr: u32) -> (out: u32)
        ensures
            out == self.word_at(addr),
    {
        if addr == 0xE000_ED00 {
            CPUID
        } else if addr == 0xE000_ED04 {
            self.icsr
        } else if addr == 0xE000_ED08 {
            self.vtor
        } else if addr == 0xE000_ED1C {
            self.shpr_word(4)
        } else if addr == 0xE000_ED20 {
            self.shpr_word(8)
        } else {
            0
        }
    }

    fn shpr_word(&self, at: usize) -> (out: u32)
        requires
            at <= 8,
        ensures
            out == self.priority_word(at as int),
    {
        self.shpr[at] as u32 + 0x100 * (self.shpr[at + 1] as u32) + 0x1_0000 * (self.shpr[at + 2] as u32)
            + 0x100_0000 * (self.shpr[at + 3] as u32)
    }

    fn set_shpr_word(&mut self, at: usize, val: u32)
        requires
            at <= 8,
        ensures
            *final(self) == old(self).with_priority_word(at as int, val),
    {
        self.shpr[at] = ((val % 0x100) as u8) & 0xC0;
        self.shpr[at + 1] = ((val / 0x100 % 0x100) as u8) & 0xC0;
        self.shpr[at + 2] = ((val / 0x1_0000 % 0x100) as u8) & 0xC0;
        self.shpr[at + 3] = ((val / 0x100_0000) as u8) & 0xC0;
    }

    fn write_icsr(&mut self, val: u32)
        ensures
            *final(self) == (Ppb { icsr: old(self).icsr_after(val), ..*old(self) }),
    {
        if val & ICSR_PENDSVSET != 0 {
            self.icsr = self.icsr | ICSR_PENDSVSET;
        }
        if val & ICSR_PENDSVCLR != 0 {
            self.icsr = self.icsr & !ICSR_PENDSVSET;
        }
        if val & ICSR_PENDSTSET != 0 {
            self.icsr = self.icsr | ICSR_PENDSTSET;
        }
        if val & ICSR_PENDSTCLR != 0 {
            self.icsr = self.icsr & !ICSR_PENDSTSET;
        }
    }

    pub fn write32(&mut self, addr: u32, val: u32)
        ensures
            *final(self) == old(self).after_write(addr, val),
    {
        if addr == 0xE000_ED04 {
            self.write_icsr(val);
        } else if addr == 0xE000_ED08 {
            self.vtor = val & 0xFFFF_FF00;
        } else if addr == 0xE000_ED1C {
            self.set_shpr_word(4, val);
        } else if addr == 0xE000_ED20 {
            self.set_shpr_word(8, val);
        }
    }
}

impl Default for Ppb {
    fn default() -> (p: Ppb)
        ensures
            p == Ppb::at_reset(),
    {
        Ppb::new()
    }
}

} // verus!
