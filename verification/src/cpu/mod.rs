//! The Cortex-M0+ core.
use vstd::array::{spec_array_fill_for_copy_type, spec_array_update};
use vstd::prelude::*;

use crate::bits::{add32, sub32, wadd};
use crate::bus::model::BusState;
use crate::cpu::decode::{slot_for, slot_of, DecodedOp, EMPTY_TAG};
use crate::cpu::registers::{Registers, XPSR_T};

pub mod access_laws;
pub mod alu;
pub mod alu_laws;
pub mod coherence;
pub mod cost;
pub mod decode;
pub mod dispatch_laws;
pub mod exceptions;
pub mod execute;
pub mod execute_laws;
pub mod laws;
pub mod list_laws;
pub mod nvic;
pub mod registers;
pub mod stack_laws;
pub mod step;
pub mod step_laws;
pub mod system_laws;
pub mod systick;
pub mod thumb32;
pub mod trust;

verus! {

/// What an instruction can raise. Everything but a supervisor call ends in
/// the hard fault handler.
#[derive(Clone, Copy, Debug, PartialEq, Eq, Structural)]
pub enum Fault {
    Svc,
    HardFault,
    Undefined,
    Breakpoint,
    Unaligned,
    InvalidEpsr,
    InvalidExcReturn,
}

#[derive(Debug)]
pub struct CortexM0Plus {
    pub regs: Registers,
    /// A fault raised and not yet delivered.
    pub pending_fault: Option<Fault>,
    pub halted: bool,
    pub cycles: u64,
    pub core_id: usize,
    /// Address of the instruction that is being executed.
    pub current_instr_addr: u32,
    pub decode_cache: [DecodedOp; 1024],
}

/// A core, the bus and the cycles spent, after some piece of work.
pub struct Effect {
    pub cpu: CortexM0Plus,
    pub bus: BusState,
    pub cycles: u32,
}

impl CortexM0Plus {
    pub open spec fn at_reset(id: usize) -> CortexM0Plus {
        CortexM0Plus {
            regs: Registers::at_reset(),
            pending_fault: None,
            halted: false,
            cycles: 0,
            core_id: id,
            current_instr_addr: 0,
            decode_cache: spec_array_fill_for_copy_type::<DecodedOp, 1024>(DecodedOp::blank()),
        }
    }

    pub open spec fn with_regs(self, regs: Registers) -> CortexM0Plus {
        CortexM0Plus { regs, ..self }
    }

    pub open spec fn with_fault(self, f: Fault) -> CortexM0Plus {
        CortexM0Plus { pending_fault: Some(f), ..self }
    }

    /// What the program counter reads as inside an instruction.
    pub open spec fn pc_value(self) -> u32 {
        wadd(self.current_instr_addr, 4)
    }

    /// Register `i` as an operand.
    pub open spec fn operand(self, i: int) -> u32 {
        if i == 15 {
            self.pc_value()
        } else {
            self.regs.r[i]
        }
    }

    /// Nothing but the cycles spent.
    pub open spec fn took(self, bus: BusState, cycles: u32) -> Effect {
        Effect { cpu: self, bus, cycles }
    }

    /// The entries that a write to the halfword at `addr` makes stale: the
    /// instruction there, and a wide one that begins two bytes before.
    pub open spec fn without_entries_at(self, addr: u32) -> CortexM0Plus {
        self.without_entry(addr).without_entry(crate::bits::wsub(addr, 2))
    }

    pub open spec fn without_entry(self, pc: u32) -> CortexM0Plus {
        if self.decode_cache[slot_of(pc)].tag == pc {
            CortexM0Plus {
                decode_cache: spec_array_update(
                    self.decode_cache,
                    slot_of(pc),
                    DecodedOp { tag: EMPTY_TAG, ..self.decode_cache[slot_of(pc)] },
                ),
                ..self
            }
        } else {
            self
        }
    }

    /// The first `n` of the listed halfwords made stale.
    pub open spec fn without_listed(self, addrs: Seq<u32>, n: nat) -> CortexM0Plus
        decreases n,
    {
        if n == 0 {
            self
        } else {
            self.without_listed(addrs, (n - 1) as nat).without_entries_at(addrs[n - 1])
        }
    }

    /// Whether an invalidation of `regions` covers an entry: the bulk bit
    /// covers all, the others the entries fetched from their region.
    pub open spec fn region_covers(regions: u32, tag: u32) -> bool {
        regions & crate::bus::invalidation_regions::BULK != 0 || (tag / 0x1000_0000 < 3 && regions & (1u32 << (
        tag / 0x1000_0000)) != 0)
    }

    /// The entries below `n` that `regions` covers emptied.
    pub open spec fn without_regions_upto(self, n: nat, regions: u32) -> CortexM0Plus
        decreases n,
    {
        if n == 0 {
            self
        } else {
            let c = self.without_regions_upto((n - 1) as nat, regions);
            let e = c.decode_cache[n - 1];
            if CortexM0Plus::region_covers(regions, e.tag) {
                CortexM0Plus {
                    decode_cache: spec_array_update(
                        c.decode_cache,
                        n - 1,
                        DecodedOp { tag: EMPTY_TAG, ..e },
                    ),
                    ..c
                }
            } else {
                c
            }
        }
    }

    pub open spec fn with_empty_cache(self) -> CortexM0Plus {
        CortexM0Plus {
            decode_cache: spec_array_fill_for_copy_type::<DecodedOp, 1024>(DecodedOp::blank()),
            ..self
        }
    }

    pub fn new() -> (cpu: CortexM0Plus)
        ensures
            cpu == CortexM0Plus::at_reset(0),
    {
        CortexM0Plus::with_id(0)
    }

    pub fn with_id(id: usize) -> (cpu: CortexM0Plus)
        ensures
            cpu == CortexM0Plus::at_reset(id),
    {
        CortexM0Plus {
            regs: Registers::new(),
            pending_fault: None,
            halted: false,
            cycles: 0,
            core_id: id,
            current_instr_addr: 0,
            decode_cache: [DecodedOp::empty();1024],
        }
    }

    pub fn flag_n(&self) -> (out: bool)
        ensures
            out == self.regs.n(),
    {
        self.regs.flag_n()
    }

    pub fn flag_z(&self) -> (out: bool)
        ensures
            out == self.regs.z(),
    {
        self.regs.flag_z()
    }

    pub fn flag_c(&self) -> (out: bool)
        ensures
            out == self.regs.c(),
    {
        self.regs.flag_c()
    }

    pub fn flag_v(&self) -> (out: bool)
        ensures
            out == self.regs.v(),
    {
        self.regs.flag_v()
    }

    pub fn has_pending_fault(&self) -> (out: bool)
        ensures
            out == (self.pending_fault is Some),
    {
        self.pending_fault.is_some()
    }

    pub fn is_in_hardfault(&self) -> (out: bool)
        ensures
            out == (self.regs.exception_number() == 3),
    {
        self.regs.ipsr() == 3
    }

    pub fn is_halted(&self) -> (out: bool)
        ensures
            out == self.halted,
    {
        self.halted
    }

    pub fn cycles(&self) -> (out: u64)
        ensures
            out == self.cycles,
    {
        self.cycles
    }

    /// Stops the core and drops a fault that it had raised.
    pub fn halt(&mut self)
        ensures
            *final(self) == (CortexM0Plus { halted: true, pending_fault: None, ..*old(self) }),
    {
        self.halted = true;
        self.pending_fault = None;
    }

    pub fn wake(&mut self)
        ensures
            *final(self) == (CortexM0Plus { halted: false, ..*old(self) }),
    {
        self.halted = false;
    }

    /// Puts the mode registers into the state that a launch starts from.
    pub fn reset_control_for_launch(&mut self)
        ensures
            *final(self) == old(self).with_regs(
                Registers { control: 0, psp: 0, primask: 0, xpsr: XPSR_T, ..old(self).regs },
            ),
    {
        self.regs.control = 0;
        self.regs.psp = 0;
        self.regs.primask = 0;
        self.regs.xpsr = XPSR_T;
    }

    pub fn read_pc(&self) -> (out: u32)
        ensures
            out == self.pc_value(),
    {
        add32(self.current_instr_addr, 4)
    }

    fn drop_entry(&mut self, pc: u32)
        ensures
            *final(self) == old(self).without_entry(pc),
    {
        let slot: usize = slot_for(pc);
        if self.decode_cache[slot].tag == pc {
            self.decode_cache[slot].tag = EMPTY_TAG;
        }
    }

    /// Drops every cached instruction that touches one of the halfwords.
    pub fn invalidate_decode_cache_entries(&mut self, addrs: &Vec<u32>)
        ensures
            *final(self) == old(self).without_listed(addrs@, addrs@.len()),
    {
        let ghost before = *self;
        let mut n: usize = 0;
        while n < addrs.len()
            invariant
                n <= addrs@.len(),
                *self == before.without_listed(addrs@, n as nat),
            decreases addrs@.len() - n,
        {
            let addr: u32 = addrs[n];
            self.drop_entry(addr);
            self.drop_entry(sub32(addr, 2));
            n += 1;
        }
    }

    /// Drops every cached instruction fetched from one of the regions.
    pub fn invalidate_decode_cache_regions(&mut self, regions: u32)
        ensures
            *final(self) == old(self).without_regions_upto(1024, regions),
    {
        let ghost before = *self;
        let mut n: usize = 0;
        while n < 1024
            invariant
                n <= 1024,
                *self == before.without_regions_upto(n as nat, regions),
            decreases 1024 - n,
        {
            let tag: u32 = self.decode_cache[n].tag;
            if regions & crate::bus::invalidation_regions::BULK != 0 || (tag / 0x1000_0000 < 3 && regions & (
            1u32 << (tag / 0x1000_0000)) != 0) {
                self.decode_cache[n].tag = EMPTY_TAG;
            }
            n += 1;
        }
    }

    /// Drops every cached instruction.
    pub fn invalidate_decode_cache_all(&mut self)
        ensures
            *final(self) == old(self).with_empty_cache(),
    {
        self.decode_cache = [DecodedOp::empty();1024];
    }
}

/// No instruction that touches a listed halfword is left in the cache, and
/// every entry that is left was there before.
pub proof fn law_listed_entries_are_gone(cpu: CortexM0Plus, addrs: Seq<u32>, n: nat, k: int, pc: u32)
    requires
        n <= addrs.len(),
        0 <= k < n,
        pc == addrs[k] || pc == crate::bits::wsub(addrs[k], 2),
        pc != EMPTY_TAG,
    ensures
        cpu.without_listed(addrs, n).decode_cache[slot_of(pc)].tag != pc,
    decreases n,
{
    let before = cpu.without_listed(addrs, (n - 1) as nat);
    let addr = addrs[n - 1];
    let mid = before.without_entry(addr);
    if k < n - 1 {
        law_listed_entries_are_gone(cpu, addrs, (n - 1) as nat, k, pc);
    }
}

/// An invalidation by address only ever empties entries.
pub proof fn law_invalidation_only_empties(cpu: CortexM0Plus, addrs: Seq<u32>, n: nat, slot: int)
    requires
        n <= addrs.len(),
        0 <= slot < 1024,
    ensures
        ({
            let after = cpu.without_listed(addrs, n).decode_cache[slot];
            after == cpu.decode_cache[slot] || after == (DecodedOp { tag: EMPTY_TAG, ..cpu.decode_cache[slot] })
        }),
    decreases n,
{
    if n > 0 {
        law_invalidation_only_empties(cpu, addrs, (n - 1) as nat, slot);
        let before = cpu.without_listed(addrs, (n - 1) as nat);
        let mid = before.without_entry(addrs[n - 1]);
        assert(mid.decode_cache[slot] == before.decode_cache[slot] || mid.decode_cache[slot] == (DecodedOp {
            tag: EMPTY_TAG,
            ..before.decode_cache[slot]
        }));
    }
}

} // verus!
