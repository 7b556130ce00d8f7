//! How long instructions and steps take.
use vstd::prelude::*;

use crate::bits::wadd;
use crate::bus::model::BusState;
use crate::cpu::decode::DecodedOp;
use crate::cpu::exceptions::ENTRY_CYCLES;
use crate::cpu::execute::{list_loaded, named_upto, MAX_CYCLES};
use crate::cpu::step::fetched;
use crate::cpu::CortexM0Plus;
use crate::memory::Width;

verus! {

/// A list names no more registers than there are.
proof fn lemma_named(list: u32, n: nat)
    ensures
        named_upto(list, n) <= n,
    decreases n,
{
    if n > 0 {
        lemma_named(list, (n - 1) as nat);
    }
}

/// Taking an exception costs the entry, or nothing where the core locks up.
proof fn lemma_entry_cost(cpu: CortexM0Plus, bus: BusState, n: u32)
    ensures
        cpu.entered(bus, n).cycles <= ENTRY_CYCLES,
        cpu.entered(bus, n).cycles == 0 ==> cpu.entered(bus, n).cpu.halted,
        cpu.entered(bus, n).cpu.cycles == cpu.cycles,
        cpu.entered(bus, n).cpu.core_id == cpu.core_id,
{
    reveal(CortexM0Plus::entered);
}

pub proof fn lemma_dispatch_cost(cpu: CortexM0Plus, bus: BusState)
    ensures
        cpu.dispatched(bus).cycles <= ENTRY_CYCLES,
        cpu.dispatched(bus).cpu.cycles == cpu.cycles,
        cpu.dispatched(bus).cpu.core_id == cpu.core_id,
{
    reveal(CortexM0Plus::dispatched);
    match cpu.takes(bus) {
        Some(c) => {
            lemma_entry_cost(cpu, bus.acknowledged(cpu.id(), c.number), c.number);
        },
        None => {},
    }
}

/// The cost of a branch that may leave a handler.
proof fn lemma_interworking_cost(cpu: CortexM0Plus, bus: BusState, target: u32, cycles: u32)
    requires
        cycles <= 10,
    ensures
        1 <= cpu.interworked(bus, target, cycles).cycles <= MAX_CYCLES,
        cpu.interworked(bus, target, cycles).cpu.cycles == cpu.cycles,
        cpu.interworked(bus, target, cycles).cpu.core_id == cpu.core_id,
{
    reveal(CortexM0Plus::interworked);
    reveal(CortexM0Plus::exited);
    reveal(CortexM0Plus::unwound);
    let (c, b) = cpu.unwound(bus, target);
    lemma_dispatch_cost(c, b);
}

proof fn lemma_special_cost(cpu: CortexM0Plus, bus: BusState, op: u16)
    ensures
        1 <= cpu.special(bus, op).cycles <= MAX_CYCLES,
        cpu.special(bus, op).cpu.cycles == cpu.cycles,
        cpu.special(bus, op).cpu.core_id == cpu.core_id,
{
    reveal(CortexM0Plus::special);
    lemma_interworking_cost(cpu, bus, cpu.operand((op / 8 % 16) as int), 0);
}

proof fn lemma_memory_cost(cpu: CortexM0Plus, bus: BusState, op: u16)
    ensures
        1 <= cpu.relative(bus, op).cycles <= MAX_CYCLES,
        cpu.relative(bus, op).cpu.cycles == cpu.cycles,
        cpu.relative(bus, op).cpu.core_id == cpu.core_id,
        1 <= cpu.ls_register(bus, op).cycles <= MAX_CYCLES,
        cpu.ls_register(bus, op).cpu.cycles == cpu.cycles,
        cpu.ls_register(bus, op).cpu.core_id == cpu.core_id,
        1 <= cpu.ls_immediate(bus, op).cycles <= MAX_CYCLES,
        cpu.ls_immediate(bus, op).cpu.cycles == cpu.cycles,
        cpu.ls_immediate(bus, op).cpu.core_id == cpu.core_id,
        1 <= cpu.multiple(bus, op).cycles <= MAX_CYCLES,
        cpu.multiple(bus, op).cpu.cycles == cpu.cycles,
        cpu.multiple(bus, op).cpu.core_id == cpu.core_id,
{
    reveal(CortexM0Plus::loaded);
    reveal(CortexM0Plus::stored);
    reveal(CortexM0Plus::relative);
    reveal(CortexM0Plus::ls_register);
    reveal(CortexM0Plus::ls_immediate);
    reveal(CortexM0Plus::multiple);
    lemma_named((op % 0x100) as u32, 8);
}

proof fn lemma_misc_cost(cpu: CortexM0Plus, bus: BusState, op: u16)
    ensures
        1 <= cpu.misc(bus, op).cycles <= MAX_CYCLES,
        cpu.misc(bus, op).cpu.cycles == cpu.cycles,
        cpu.misc(bus, op).cpu.core_id == cpu.core_id,
{
    let list = (op % 0x100) as u32;
    lemma_named(list, 8);
    let (r, b, a) = list_loaded(bus, cpu.regs, list, cpu.regs.r[13], 8);
    lemma_interworking_cost(
        cpu.with_regs(r.with_reg(13, wadd(a, 4))),
        b.after_read(a, Width::Word),
        b.value_at(a, Width::Word),
        (2 + named_upto(list, 8)) as u32,
    );
    reveal(CortexM0Plus::push);
    reveal(CortexM0Plus::pop);
    reveal(CortexM0Plus::hint);
    reveal(CortexM0Plus::misc);
}

proof fn lemma_thumb16_cost(cpu: CortexM0Plus, bus: BusState, op: u16)
    ensures
        1 <= cpu.thumb16(bus, op).cycles <= MAX_CYCLES,
        cpu.thumb16(bus, op).cpu.cycles == cpu.cycles,
        cpu.thumb16(bus, op).cpu.core_id == cpu.core_id,
{
    lemma_special_cost(cpu, bus, op);
    lemma_memory_cost(cpu, bus, op);
    lemma_misc_cost(cpu, bus, op);
    reveal(CortexM0Plus::conditional);
    reveal(CortexM0Plus::branch);
    reveal(CortexM0Plus::thumb16);
}

proof fn lemma_thumb32_cost(cpu: CortexM0Plus, bus: BusState, hw0: u16, hw1: u16)
    ensures
        1 <= cpu.thumb32(bus, hw0, hw1).cycles <= MAX_CYCLES,
        cpu.thumb32(bus, hw0, hw1).cpu.cycles == cpu.cycles,
        cpu.thumb32(bus, hw0, hw1).cpu.core_id == cpu.core_id,
{
    reveal(CortexM0Plus::branch_link);
    reveal(CortexM0Plus::barrier);
    reveal(CortexM0Plus::write_special);
    reveal(CortexM0Plus::read_special);
    reveal(CortexM0Plus::thumb32);
}

proof fn lemma_execution_cost(cpu: CortexM0Plus, bus: BusState, op: DecodedOp)
    ensures
        1 <= cpu.executed(bus, op).cycles <= MAX_CYCLES,
        cpu.executed(bus, op).cpu.cycles == cpu.cycles,
        cpu.executed(bus, op).cpu.core_id == cpu.core_id,
{
    reveal(CortexM0Plus::executed);
    let pc = cpu.regs.r[15];
    let at = CortexM0Plus { current_instr_addr: pc, ..cpu };
    lemma_thumb32_cost(at.with_regs(cpu.regs.with_reg(15, wadd(pc, 4))), bus, op.hw0, op.hw1);
    lemma_thumb16_cost(at.with_regs(cpu.regs.with_reg(15, wadd(pc, 2))), bus, op.hw0);
}

/// Every instruction takes at least one cycle, and at most as many as a
/// return that pops all it can and goes on to the next handler. It leaves the
/// core's own clock to the step that it is part of.
pub proof fn law_instruction_cost(cpu: CortexM0Plus, bus: BusState)
    ensures
        1 <= cpu.advanced(bus).cycles <= MAX_CYCLES,
        cpu.advanced(bus).cpu.cycles == cpu.cycles,
        cpu.advanced(bus).cpu.core_id == cpu.core_id,
{
    reveal(CortexM0Plus::advanced);
    match cpu.cached() {
        Some(op) => {
            lemma_execution_cost(cpu, bus, op);
        },
        None => {
            let f = fetched(bus, cpu.regs.r[15]);
            if f.op is Some {
                lemma_execution_cost(cpu.remembering(f.op->0), f.bus, f.op->0);
            }
        },
    }
}

/// A step costs at most one instruction and one exception entry. It costs
/// nothing only where the core is halted before it or locks up in it. The
/// core's own clock moves on by what it costs, and a halted core does nothing.
pub proof fn law_step_cost(cpu: CortexM0Plus, bus: BusState)
    ensures
        cpu.stepped(bus).cycles <= MAX_CYCLES + ENTRY_CYCLES,
        cpu.stepped(bus).cycles == 0 ==> cpu.stepped(bus).cpu.halted,
        cpu.halted ==> cpu.stepped(bus) == cpu.took(bus, 0),
        cpu.stepped(bus).cpu.cycles == (cpu.cycles + cpu.stepped(bus).cycles) % 0x1_0000_0000_0000_0000,
        cpu.stepped(bus).cpu.core_id == cpu.core_id,
{
    reveal(CortexM0Plus::stepped);
    if !cpu.halted {
        lemma_work_cost(cpu, BusState { active_core: cpu.core_id, ..bus });
    }
}

proof fn lemma_work_cost(cpu: CortexM0Plus, bus: BusState)
    ensures
        cpu.worked(bus).cycles <= MAX_CYCLES + ENTRY_CYCLES,
        cpu.worked(bus).cycles == 0 ==> cpu.worked(bus).cpu.halted,
        cpu.worked(bus).cpu.cycles == cpu.cycles,
        cpu.worked(bus).cpu.core_id == cpu.core_id,
{
    reveal(CortexM0Plus::worked);
    lemma_delivery_cost(cpu, bus);
    lemma_dispatch_cost(cpu, bus);
    let taken = cpu.dispatched(bus);
    law_instruction_cost(taken.cpu, taken.bus);
    let ran = taken.cpu.advanced(taken.bus);
    let staged = ran.cpu.bus_fault_staged(ran.bus);
    lemma_delivery_cost(staged.cpu, staged.bus);
}

proof fn lemma_delivery_cost(cpu: CortexM0Plus, bus: BusState)
    ensures
        cpu.fault_delivered(bus).cycles <= ENTRY_CYCLES,
        cpu.pending_fault is Some && cpu.fault_delivered(bus).cycles == 0 ==> cpu.fault_delivered(bus).cpu.halted,
        cpu.fault_delivered(bus).cpu.cycles == cpu.cycles,
        cpu.fault_delivered(bus).cpu.core_id == cpu.core_id,
{
    match cpu.pending_fault {
        Some(f) => {
            let quiet = CortexM0Plus { pending_fault: None, ..cpu };
            lemma_entry_cost(quiet, bus, quiet.fault_number(f));
        },
        None => {},
    }
}

} // verus!
