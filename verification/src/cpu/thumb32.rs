//! The 32-bit instructions: branch with link, special registers, barriers.
use vstd::prelude::*;

use crate::bits::{add32, lemma_word_facts};
use crate::bits::wadd;
use crate::bus::model::BusState;
use crate::cpu::registers::Registers;
use crate::cpu::{CortexM0Plus, Effect, Fault};

verus! {

impl Registers {
    /// The special register that a number names, as `mrs` reads it; none for
    /// a reserved number.
    pub open spec fn special_value(self, sysm: u32) -> Option<u32> {
        let flags = self.xpsr & 0xF000_0000;
        let ipsr = self.xpsr & 0x1FF;
        if sysm == 0 {
            Some(flags)
        } else if sysm == 3 {
            Some(flags | ipsr)
        } else if sysm == 5 {
            Some(ipsr)
        } else if sysm == 8 {
            Some(
                if self.uses_psp() {
                    self.msp
                } else {
                    self.r[13]
                },
            )
        } else if sysm == 9 {
            Some(
                if self.uses_psp() {
                    self.r[13]
                } else {
                    self.psp
                },
            )
        } else if sysm == 16 {
            Some(self.primask)
        } else if sysm == 20 {
            Some(self.control)
        } else {
            None
        }
    }

    /// CONTROL written: a handler may only change the privilege bit, a
    /// thread also which stack `r13` stands for.
    pub open spec fn with_control(self, val: u32) -> Registers {
        if self.in_handler() {
            Registers { control: (self.control & 0x2) | (val & 0x1), ..self }
        } else {
            (Registers { control: val & 0x3, ..self.sp_banked() }).sp_unbanked()
        }
    }

    /// The register file after `msr`; none for a reserved number.
    pub open spec fn with_special(self, sysm: u32, val: u32) -> Option<Registers> {
        if sysm == 0 || sysm == 3 {
            Some(Registers { xpsr: (self.xpsr & 0x0FFF_FFFF) | (val & 0xF000_0000), ..self })
        } else if sysm == 5 {
            Some(self)
        } else if sysm == 8 {
            Some(
                if self.uses_psp() {
                    Registers { msp: val, ..self }
                } else {
                    (Registers { msp: val, ..self }).with_reg(13, val)
                },
            )
        } else if sysm == 9 {
            Some(
                if self.uses_psp() {
                    (Registers { psp: val, ..self }).with_reg(13, val)
                } else {
                    Registers { psp: val, ..self }
                },
            )
        } else if sysm == 16 {
            Some(Registers { primask: val & 0x1, ..self })
        } else if sysm == 20 {
            Some(self.with_control(val))
        } else {
            None
        }
    }

    fn read_special(&self, sysm: u32) -> (out: Option<u32>)
        ensures
            out == self.special_value(sysm),
    {
        match sysm {
            0 => Some(self.xpsr & 0xF000_0000),
            3 => Some((self.xpsr & 0xF000_0000) | (self.xpsr & 0x1FF)),
            5 => Some(self.xpsr & 0x1FF),
            8 => Some(
                if self.active_sp_is_psp() {
                    self.msp
                } else {
                    self.r[13]
                },
            ),
            9 => Some(
                if self.active_sp_is_psp() {
                    self.r[13]
                } else {
                    self.psp
                },
            ),
            16 => Some(self.primask),
            20 => Some(self.control),
            _ => None,
        }
    }

    /// Writes a special register; false where the number names none.
    fn write_special(&mut self, sysm: u32, val: u32) -> (ok: bool)
        ensures
            ok == (old(self).with_special(sysm, val) is Some),
            ok ==> Some(*final(self)) == old(self).with_special(sysm, val),
            !ok ==> *final(self) == *old(self),
    {
        match sysm {
            0 | 3 => {
                self.xpsr = (self.xpsr & 0x0FFF_FFFF) | (val & 0xF000_0000);
            },
            5 => {},
            8 => {
                let psp = self.active_sp_is_psp();
                self.msp = val;
                if !psp {
                    self.r[13] = val;
                }
            },
            9 => {
                let psp = self.active_sp_is_psp();
                self.psp = val;
                if psp {
                    self.r[13] = val;
                }
            },
            16 => {
                self.primask = val & 0x1;
            },
            20 => {
                if self.ipsr() != 0 {
                    self.control = (self.control & 0x2) | (val & 0x1);
                } else {
                    self.sync_sp_to_banked();
                    self.control = val & 0x3;
                    self.sync_sp_from_banked();
                }
            },
            _ => {
                return false;
            },
        }
        true
    }
}

/// The displacement of a branch with link: a sign, two bits kept inverted
/// against it, and twenty-one more, in halfwords.
pub open spec fn link_offset(hw0: u16, hw1: u16) -> int {
    let s = (hw0 / 0x400 % 2) as int;
    let i1 = if hw1 / 0x2000 % 2 == s {
        1int
    } else {
        0int
    };
    let i2 = if hw1 / 0x800 % 2 == s {
        1int
    } else {
        0int
    };
    i1 * 0x80_0000 + i2 * 0x40_0000 + (hw0 % 0x400) * 0x1000 + (hw1 % 0x800) * 2 - s * 0x100_0000
}

impl CortexM0Plus {
    #[verifier::opaque]
    pub open spec fn branch_link(self, bus: BusState, hw0: u16, hw1: u16) -> Effect {
        self.with_regs(
            self.regs.with_reg(14, wadd(self.current_instr_addr, 4) | 1).with_reg(
                15,
                self.branch_target(link_offset(hw0, hw1)),
            ),
        ).took(bus, 4)
    }

    fn run_branch_link(&mut self, hw0: u16, hw1: u16) -> (cycles: u32)
        ensures
            forall|b: BusState|
                (Effect { cpu: *final(self), bus: b, cycles }) == #[trigger] old(self).branch_link(b, hw0, hw1),
            cycles == 4,
    {
        reveal(CortexM0Plus::branch_link);
        let s: u16 = hw0 / 0x400 % 2;
        let i1: u32 = if hw1 / 0x2000 % 2 == s {
            0x80_0000
        } else {
            0
        };
        let i2: u32 = if hw1 / 0x800 % 2 == s {
            0x40_0000
        } else {
            0
        };
        let low: u32 = i1 + i2 + (hw0 % 0x400) as u32 * 0x1000 + (hw1 % 0x800) as u32 * 2;
        let target: u32 = if s == 0 {
            self.address_ahead(low)
        } else {
            self.address_back(0x100_0000 - low)
        };
        self.regs.r[14] = add32(self.current_instr_addr, 4) | 1;
        self.regs.r[15] = target;
        4
    }

    /// Barriers; an instruction barrier also empties the decode cache.
    #[verifier::opaque]
    pub open spec fn barrier(self, bus: BusState, hw1: u16) -> Effect {
        let kind = hw1 / 16 % 16;
        if kind == 4 || kind == 5 {
            self.took(bus, 1)
        } else if kind == 6 {
            self.with_empty_cache().took(bus, 1)
        } else {
            self.with_fault(Fault::Undefined).took(bus, 1)
        }
    }

    fn run_barrier(&mut self, hw1: u16) -> (cycles: u32)
        ensures
            forall|b: BusState|
                (Effect { cpu: *final(self), bus: b, cycles }) == #[trigger] old(self).barrier(b, hw1),
            cycles == 1,
    {
        reveal(CortexM0Plus::barrier);
        match hw1 / 16 % 16 {
            4 | 5 => {},
            6 => {
                self.invalidate_decode_cache_all();
            },
            _ => {
                self.pending_fault = Some(Fault::Undefined);
            },
        }
        1
    }

    /// `msr` and `mrs`.
    #[verifier::opaque]
    pub open spec fn write_special(self, bus: BusState, hw0: u16, hw1: u16) -> Effect {
        match self.regs.with_special((hw1 % 0x100) as u32, self.regs.r[(hw0 % 16) as int]) {
            Some(regs) => self.with_regs(regs).took(bus, 3),
            None => self.with_fault(Fault::Undefined).took(bus, 1),
        }
    }

    #[verifier::opaque]
    pub open spec fn read_special(self, bus: BusState, hw1: u16) -> Effect {
        match self.regs.special_value((hw1 % 0x100) as u32) {
            Some(v) => self.with_regs(self.regs.with_reg((hw1 / 0x100 % 16) as int, v)).took(bus, 3),
            None => self.with_fault(Fault::Undefined).took(bus, 1),
        }
    }

    fn run_write_special(&mut self, hw0: u16, hw1: u16) -> (cycles: u32)
        ensures
            forall|b: BusState|
                (Effect { cpu: *final(self), bus: b, cycles }) == #[trigger] old(self).write_special(b, hw0, hw1),
            cycles <= 3,
    {
        reveal(CortexM0Plus::write_special);
        let val: u32 = self.regs.r[(hw0 % 16) as usize];
        if self.regs.write_special((hw1 % 0x100) as u32, val) {
            3
        } else {
            self.pending_fault = Some(Fault::Undefined);
            1
        }
    }

    fn run_read_special(&mut self, hw1: u16) -> (cycles: u32)
        ensures
            forall|b: BusState|
                (Effect { cpu: *final(self), bus: b, cycles }) == #[trigger] old(self).read_special(b, hw1),
            cycles <= 3,
    {
        reveal(CortexM0Plus::read_special);
        match self.regs.read_special((hw1 % 0x100) as u32) {
            Some(v) => {
                self.regs.r[(hw1 / 0x100 % 16) as usize] = v;
                3
            },
            None => {
                self.pending_fault = Some(Fault::Undefined);
                1
            },
        }
    }

    /// One 32-bit instruction.
    #[verifier::opaque]
    pub open spec fn thumb32(self, bus: BusState, hw0: u16, hw1: u16) -> Effect {
        let field = hw0 / 16 % 128;
        if hw1 / 0x4000 == 3 && hw1 / 0x1000 % 2 == 1 {
            self.branch_link(bus, hw0, hw1)
        } else if hw0 == 0xF3BF && hw1 / 0x100 == 0x8F {
            self.barrier(bus, hw1)
        } else if (field == 0x38 || field == 0x39) && hw1 / 0x100 == 0x88 {
            self.write_special(bus, hw0, hw1)
        } else if (field == 0x3E || field == 0x3F) && hw0 % 16 == 15 && hw1 / 0x1000 == 8 {
            self.read_special(bus, hw1)
        } else {
            self.with_fault(Fault::Undefined).took(bus, 1)
        }
    }

    pub fn execute_thumb32(&mut self, hw0: u16, hw1: u16) -> (cycles: u32)
        ensures
            forall|b: BusState|
                (Effect { cpu: *final(self), bus: b, cycles }) == #[trigger] old(self).thumb32(b, hw0, hw1),
            cycles <= 4,
    {
        reveal(CortexM0Plus::thumb32);
        let field: u16 = hw0 / 16 % 128;
        if hw1 / 0x4000 == 3 && hw1 / 0x1000 % 2 == 1 {
            self.run_branch_link(hw0, hw1)
        } else if hw0 == 0xF3BF && hw1 / 0x100 == 0x8F {
            self.run_barrier(hw1)
        } else if (field == 0x38 || field == 0x39) && hw1 / 0x100 == 0x88 {
            self.run_write_special(hw0, hw1)
        } else if (field == 0x3E || field == 0x3F) && hw0 % 16 == 15 && hw1 / 0x1000 == 8 {
            self.run_read_special(hw1)
        } else {
            self.pending_fault = Some(Fault::Undefined);
            1
        }
    }
}

/// Moving to a special register and back gives the value moved, for the stack
/// pointers, and its lowest bit for the interrupt mask.
pub proof fn law_special_registers_round_trip(r: Registers, sysm: u32, val: u32)
    requires
        sysm == 8 || sysm == 9 || sysm == 16,
    ensures
        r.with_special(sysm, val) matches Some(after) && after.special_value(sysm) == Some(
            if sysm == 16 {
                val & 0x1
            } else {
                val
            },
        ),
{
}

/// Switching stacks and back, with nothing in between, leaves both stack
/// pointers as they were.
pub proof fn law_stack_switch_is_reversible(r: Registers)
    requires
        !r.in_handler(),
        r.control == 0,
    ensures
        ({
            let there = r.with_control(2);
            let back = there.with_control(0);
            &&& there.r[13] == r.psp
            &&& there.msp == r.r[13]
            &&& back.r[13] == r.r[13]
            &&& back.psp == r.psp
            &&& back.control == 0
        }),
{
    lemma_word_facts(0, 0, 0);
}

} // verus!
