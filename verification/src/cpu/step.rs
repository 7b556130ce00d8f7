//! Fetching, executing and stepping.
use vstd::array::spec_array_update;
use vstd::prelude::*;

use crate::bits::add32;
use crate::bits::wadd;
use crate::bus::model::BusState;
use crate::bus::Bus;
use crate::cpu::decode::{cacheable, is_wide, slot_for, slot_of, wide_prefix, DecodedOp};
use crate::cpu::exceptions::ENTRY_CYCLES;
use crate::cpu::execute::MAX_CYCLES;
use crate::cpu::{CortexM0Plus, Effect, Fault};
use crate::memory::Width;

verus! {

/// A fetched instruction and the bus after the fetch; the entry is none where
/// the fetch ran into a fault.
pub struct Fetched {
    pub op: Option<DecodedOp>,
    pub bus: BusState,
}

/// The instruction in memory at `pc`: one halfword, and a second for the wide
/// prefix.
#[verifier::opaque]
pub open spec fn fetched(bus: BusState, pc: u32) -> Fetched {
    let hw0 = (bus.value_at(pc, Width::Half) % 0x1_0000) as u16;
    let bus1 = bus.after_read(pc, Width::Half);
    if bus1.fault {
        Fetched { op: None, bus: bus1 }
    } else if !wide_prefix(hw0) {
        Fetched { op: Some(DecodedOp { tag: pc, hw0, hw1: 0, wide: false }), bus: bus1 }
    } else {
        let hw1 = (bus1.value_at(wadd(pc, 2), Width::Half) % 0x1_0000) as u16;
        let bus2 = bus1.after_read(wadd(pc, 2), Width::Half);
        if bus2.fault {
            Fetched { op: None, bus: bus2 }
        } else {
            Fetched { op: Some(DecodedOp { tag: pc, hw0, hw1, wide: true }), bus: bus2 }
        }
    }
}

fn fetch(bus: &mut Bus, pc: u32) -> (op: Option<DecodedOp>)
    ensures
        op == fetched(old(bus)@, pc).op,
        final(bus)@ == fetched(old(bus)@, pc).bus,
        op matches Some(e) ==> e.tag == pc,
{
    reveal(fetched);
    let hw0: u16 = bus.read16(pc);
    if bus.bus_fault() {
        return None;
    }
    if !is_wide(hw0) {
        return Some(DecodedOp::from_parts(pc, hw0, 0, false));
    }
    let hw1: u16 = bus.read16(add32(pc, 2));
    if bus.bus_fault() {
        return None;
    }
    Some(DecodedOp::from_parts(pc, hw0, hw1, true))
}

impl CortexM0Plus {
    /// One instruction that has been fetched from the program counter.
    #[verifier::opaque]
    pub open spec fn executed(self, bus: BusState, op: DecodedOp) -> Effect {
        let pc = self.regs.r[15];
        let at = CortexM0Plus { current_instr_addr: pc, ..self };
        if op.wide {
            at.with_regs(self.regs.with_reg(15, wadd(pc, 4))).thumb32(bus, op.hw0, op.hw1)
        } else {
            at.with_regs(self.regs.with_reg(15, wadd(pc, 2))).thumb16(bus, op.hw0)
        }
    }

    fn execute(&mut self, op: DecodedOp, bus: &mut Bus) -> (cycles: u32)
        ensures
            (Effect { cpu: *final(self), bus: final(bus)@, cycles }) == old(self).executed(old(bus)@, op),
            cycles <= MAX_CYCLES,
    {
        reveal(CortexM0Plus::executed);
        let pc: u32 = self.regs.r[15];
        self.current_instr_addr = pc;
        if op.wide {
            self.regs.r[15] = add32(pc, 4);
            self.execute_thumb32(op.hw0, op.hw1)
        } else {
            self.regs.r[15] = add32(pc, 2);
            self.execute_thumb16(op.hw0, bus)
        }
    }

    /// The cached instruction at the program counter, if there is one.
    pub open spec fn cached(self) -> Option<DecodedOp> {
        let pc = self.regs.r[15];
        let e = self.decode_cache[slot_of(pc)];
        if e.tag == pc && cacheable(pc) {
            Some(e)
        } else {
            None
        }
    }

    /// The core with an instruction remembered, where its address may be.
    pub open spec fn remembering(self, op: DecodedOp) -> CortexM0Plus {
        if cacheable(op.tag) {
            CortexM0Plus { decode_cache: spec_array_update(self.decode_cache, slot_of(op.tag), op), ..self }
        } else {
            self
        }
    }

    /// Fetch and execution of the instruction at the program counter. A
    /// faulting fetch executes nothing and costs one cycle.
    #[verifier::opaque]
    pub open spec fn advanced(self, bus: BusState) -> Effect {
        let pc = self.regs.r[15];
        match self.cached() {
            Some(op) => self.executed(bus, op),
            None => {
                let f = fetched(bus, pc);
                match f.op {
                    Some(op) => self.remembering(op).executed(f.bus, op),
                    None => (CortexM0Plus { current_instr_addr: pc, ..self }).took(f.bus, 1),
                }
            },
        }
    }

    /// Fetches, through the cache, and executes one instruction.
    pub fn decode_execute(&mut self, bus: &mut Bus) -> (cycles: u32)
        ensures
            (Effect { cpu: *final(self), bus: final(bus)@, cycles }) == old(self).advanced(old(bus)@),
            cycles <= MAX_CYCLES,
    {
        reveal(CortexM0Plus::advanced);
        let pc: u32 = self.regs.r[15];
        let slot: usize = slot_for(pc);
        let entry = self.decode_cache[slot];
        if entry.matches_pc(pc, slot) {
            return self.execute(entry, bus);
        }
        match fetch(bus, pc) {
            Some(op) => {
                if pc < 0x3000_0000 {
                    self.decode_cache[slot] = op;
                }
                self.execute(op, bus)
            },
            None => {
                self.current_instr_addr = pc;
                1
            },
        }
    }

    /// A bus fault that an instruction ran into, turned into a hard fault in
    /// waiting.
    pub open spec fn bus_fault_staged(self, bus: BusState) -> Effect {
        if bus.fault {
            self.with_fault(Fault::HardFault).took(BusState { fault: false, ..bus }, 0)
        } else {
            self.took(bus, 0)
        }
    }

    /// A fault in waiting delivered.
    pub open spec fn fault_delivered(self, bus: BusState) -> Effect {
        match self.pending_fault {
            Some(f) => {
                let quiet = CortexM0Plus { pending_fault: None, ..self };
                quiet.entered(bus, quiet.fault_number(f))
            },
            None => self.took(bus, 0),
        }
    }

    /// The core's clock moved on.
    pub open spec fn billed(self, cycles: u32) -> CortexM0Plus {
        CortexM0Plus {
            cycles: ((self.cycles + cycles) % 0x1_0000_0000_0000_0000) as u64,
            ..self
        }
    }

    /// What a step does before the clock is billed: nothing when halted; else
    /// a fault in waiting is delivered, or a pending exception taken, or an
    /// instruction executed with whatever fault it raised.
    #[verifier::opaque]
    pub open spec fn worked(self, bus: BusState) -> Effect {
        if self.pending_fault is Some {
            self.fault_delivered(bus)
        } else {
            let taken = self.dispatched(bus);
            if taken.cycles != 0 {
                taken
            } else {
                let ran = taken.cpu.advanced(taken.bus);
                let staged = ran.cpu.bus_fault_staged(ran.bus);
                let done = staged.cpu.fault_delivered(staged.bus);
                Effect { cycles: (ran.cycles + done.cycles) as u32, ..done }
            }
        }
    }

    /// One step of the core, which the bus then acts for.
    #[verifier::opaque]
    pub open spec fn stepped(self, bus: BusState) -> Effect {
        if self.halted {
            self.took(bus, 0)
        } else {
            let e = self.worked(BusState { active_core: self.core_id, ..bus });
            Effect { cpu: e.cpu.billed(e.cycles), ..e }
        }
    }

    fn deliver_pending(&mut self, bus: &mut Bus) -> (cycles: u32)
        ensures
            (Effect { cpu: *final(self), bus: final(bus)@, cycles }) == old(self).fault_delivered(old(bus)@),
            cycles <= ENTRY_CYCLES,
    {
        match self.pending_fault {
            Some(f) => {
                self.pending_fault = None;
                self.deliver_fault(f, bus)
            },
            None => 0,
        }
    }

    fn stage_bus_fault(&mut self, bus: &mut Bus)
        ensures
            (Effect { cpu: *final(self), bus: final(bus)@, cycles: 0 }) == old(self).bus_fault_staged(old(bus)@),
    {
        if bus.bus_fault() {
            bus.clear_bus_fault();
            self.pending_fault = Some(Fault::HardFault);
        }
    }

    fn work(&mut self, bus: &mut Bus) -> (cycles: u32)
        ensures
            (Effect { cpu: *final(self), bus: final(bus)@, cycles }) == old(self).worked(old(bus)@),
            cycles <= MAX_CYCLES + ENTRY_CYCLES,
    {
        reveal(CortexM0Plus::worked);
        if self.pending_fault.is_some() {
            return self.deliver_pending(bus);
        }
        let taken: u32 = self.try_take_any_pending_exception(bus);
        if taken != 0 {
            return taken;
        }
        let ran: u32 = self.decode_execute(bus);
        self.stage_bus_fault(bus);
        ran + self.deliver_pending(bus)
    }

    /// Advances the core by one instruction or one exception entry, and
    /// returns the cycles it took.
    pub fn step(&mut self, bus: &mut Bus) -> (cycles: u32)
        ensures
            (Effect { cpu: *final(self), bus: final(bus)@, cycles }) == old(self).stepped(old(bus)@),
            cycles <= MAX_CYCLES + ENTRY_CYCLES,
    {
        reveal(CortexM0Plus::stepped);
        if self.halted {
            return 0;
        }
        bus.set_active_core(self.core_id);
        let cycles: u32 = self.work(bus);
        self.cycles = self.cycles.wrapping_add(cycles as u64);
        cycles
    }

    /// Executes one 16-bit instruction as if it had been fetched from the
    /// program counter.
    pub fn execute_one_with_bus(&mut self, op: u16, bus: &mut Bus) -> (cycles: u32)
        ensures
            (Effect { cpu: *final(self), bus: final(bus)@, cycles }) == old(self).executed(
                old(bus)@,
                DecodedOp { tag: old(self).regs.r[15], hw0: op, hw1: 0, wide: false },
            ),
            cycles <= MAX_CYCLES,
    {
        let pc: u32 = self.regs.r[15];
        self.execute(DecodedOp::from_parts(pc, op, 0, false), bus)
    }

    /// The same, on a bus of its own.
    pub fn execute_one(&mut self, op: u16) -> (cycles: u32)
        ensures
            ({
                let e = old(self).executed(
                    BusState::at_reset(),
                    DecodedOp { tag: old(self).regs.r[15], hw0: op, hw1: 0, wide: false },
                );
                *final(self) == e.cpu && cycles == e.cycles
            }),
    {
        let mut bus = Bus::new();
        self.execute_one_with_bus(op, &mut bus)
    }

    /// Executes one 32-bit instruction as if it had been fetched from the
    /// program counter.
    pub fn execute_one_wide(&mut self, hw0: u16, hw1: u16) -> (cycles: u32)
        ensures
            forall|b: BusState|
                (Effect { cpu: *final(self), bus: b, cycles }) == #[trigger] old(self).executed(
                    b,
                    DecodedOp { tag: old(self).regs.r[15], hw0, hw1, wide: true },
                ),
    {
        reveal(CortexM0Plus::executed);
        let pc: u32 = self.regs.r[15];
        self.current_instr_addr = pc;
        self.regs.r[15] = add32(pc, 4);
        self.execute_thumb32(hw0, hw1)
    }
}

} // verus!
