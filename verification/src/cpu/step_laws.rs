//! What a step fetches, and what becomes of a fault in it.
use vstd::prelude::*;

use crate::bits::wadd;
use crate::bus::model::BusState;
use crate::cpu::decode::DecodedOp;
use crate::cpu::registers::Registers;
use crate::cpu::step::fetched;
use crate::cpu::{CortexM0Plus, Fault};
use crate::memory::Width;

verus! {

/// The instruction at an address is one halfword, or two for the halfwords
/// from 0xF000 up to 0xF7FF; the second is the one above. A fetch that meets
/// a fault gives none.
pub proof fn law_fetch(bus: BusState, pc: u32)
    requires
        pc < 0xFFFF_FFFE,
    ensures
        ({
            let f = fetched(bus, pc);
            let first = bus.value_at(pc, Width::Half) as int % 0x1_0000;
            let after = bus.after_read(pc, Width::Half);
            let above = (pc + 2) as u32;
            let second = after.value_at(above, Width::Half) as int % 0x1_0000;
            let wide = 0xF000 <= first < 0xF800;
            &&& after.fault ==> f.op is None && f.bus == after
            &&& !after.fault && !wide ==> f.bus == after && (f.op matches Some(e) && e.hw0 == first && !e.wide && e.tag
                == pc)
            &&& !after.fault && wide ==> f.bus == after.after_read(above, Width::Half)
            &&& !after.fault && wide && !f.bus.fault ==> (f.op matches Some(e) && e.hw0 == first && e.hw1 == second
                && e.wide && e.tag == pc)
            &&& !after.fault && wide && f.bus.fault ==> f.op is None
        }),
{
    reveal(fetched);
    reveal(wadd);
}

/// An instruction that was fetched is executed, and is remembered if it came
/// from the three lower regions, so that the next time no fetch is needed;
/// where the fetch met a fault nothing is executed and one cycle passes.
pub proof fn law_fetch_and_execute(cpu: CortexM0Plus, bus: BusState)
    requires
        cpu.cached() is None,
    ensures
        ({
            let pc = cpu.regs.r[15];
            let f = fetched(bus, pc);
            let e = cpu.advanced(bus);
            &&& f.op matches Some(op) ==> {
                &&& pc < 0x3000_0000 ==> cpu.remembering(op).cached() == Some(op)
                &&& pc >= 0x3000_0000 ==> cpu.remembering(op) == cpu
                &&& e == cpu.remembering(op).executed(f.bus, op)
            }
            &&& f.op is None ==> e.cycles == 1 && e.cpu.regs == cpu.regs && e.bus == f.bus && e.cpu.pending_fault
                == cpu.pending_fault
        }),
{
    reveal(CortexM0Plus::advanced);
    reveal(fetched);
}

/// An instruction that is remembered is executed without a look at memory.
pub proof fn law_remembered_instruction(cpu: CortexM0Plus, bus: BusState, op: DecodedOp)
    requires
        cpu.regs.r[15] < 0x3000_0000,
        op.tag == cpu.regs.r[15],
        cpu.decode_cache[cpu.regs.r[15] as int / 2 % 1024] == op,
    ensures
        cpu.advanced(bus) == cpu.executed(bus, op),
{
    reveal(CortexM0Plus::advanced);
}

/// A fault on the bus becomes a hard fault of the core, which is exception
/// three, and is off the bus; with no fault in waiting nothing is entered.
pub proof fn law_bus_fault_becomes_hard_fault(cpu: CortexM0Plus, bus: BusState)
    ensures
        bus.fault ==> ({
            let e = cpu.bus_fault_staged(bus);
            &&& e.cpu.pending_fault == Some(Fault::HardFault)
            &&& !e.bus.fault
            &&& e.cycles == 0
            &&& e.cpu.regs == cpu.regs
            &&& e.cpu.fault_delivered(e.bus) == (CortexM0Plus { pending_fault: None, ..cpu }).entered(e.bus, 3)
        }),
        !bus.fault ==> cpu.bus_fault_staged(bus).cpu == cpu && cpu.bus_fault_staged(bus).bus == bus,
        cpu.pending_fault is None ==> cpu.fault_delivered(bus).cpu == cpu && cpu.fault_delivered(bus).cycles == 0,
{
}

/// A return from an exception costs sixteen cycles and what is taken after it;
/// of the return values only those that end in one, nine and thirteen are
/// valid, and any other is a fault.
pub proof fn law_exception_return(cpu: CortexM0Plus, bus: BusState, value: u32)
    ensures
        ({
            let code = value as int % 16;
            let e = cpu.exited(bus, value);
            if code == 1 || code == 9 || code == 13 {
                let (c, b) = cpu.unwound(bus, value);
                let after = c.dispatched(b);
                &&& e.cycles == 16 + after.cycles
                &&& e.cpu == after.cpu
                &&& e.bus == after.bus
            } else {
                &&& e.cpu.pending_fault == Some(Fault::InvalidExcReturn)
                &&& e.cpu.regs == cpu.regs
                &&& e.bus == bus
                &&& e.cycles == 1
            }
        }),
{
    crate::peripherals::laws::lemma_fields(value);
    let (c, b) = cpu.unwound(bus, value);
    crate::cpu::cost::lemma_dispatch_cost(c, b);
    reveal(CortexM0Plus::exited);
}

/// A supervisor call goes to exception eleven unless interrupts are masked;
/// it then goes to exception three, as every other fault does.
pub proof fn law_fault_numbers(cpu: CortexM0Plus, f: Fault)
    ensures
        cpu.fault_number(f) == (if f == Fault::Svc && cpu.regs.primask % 2 == 0 {
            11int
        } else {
            3int
        }),
{
    crate::bits::lemma_bit_ops(cpu.regs.primask, 0, 0, 0);
    crate::peripherals::laws::lemma_fields(cpu.regs.primask);
}

/// In a handler, a branch to one of the sixteen highest addresses returns from
/// the exception. Any other branch goes to its target, which must be odd, one
/// less than it; an even target is a fault.
pub proof fn law_interworking(cpu: CortexM0Plus, bus: BusState, target: u32, cycles: u32)
    requires
        cycles <= 10,
    ensures
        ({
            let e = cpu.interworked(bus, target, cycles);
            let leaves = cpu.regs.xpsr as int % 512 != 0 && target >= 0xFFFF_FFF0;
            let r = cpu.exited(bus, target);
            &&& leaves ==> e.cpu == r.cpu && e.bus == r.bus && e.cycles == r.cycles + cycles
            &&& !leaves && target % 2 == 1 ==> e.cpu.regs.r[15] == target - 1 && e.bus == bus && e.cycles == cycles + 3
                && e.cpu.pending_fault == cpu.pending_fault
            &&& !leaves && target % 2 == 0 ==> e.cpu.pending_fault == Some(Fault::InvalidEpsr) && e.cpu.regs == cpu.regs
                && e.bus == bus && e.cycles == cycles + 1
        }),
{
    crate::peripherals::laws::lemma_fields(cpu.regs.xpsr);
    crate::bus::lane_laws::lemma_parts(target);
    let (c, b) = cpu.unwound(bus, target);
    crate::cpu::cost::lemma_dispatch_cost(c, b);
    law_exception_return(cpu, bus, target);
    reveal(CortexM0Plus::interworked);
}

/// The stack pointer stands for the process stack while its control bit is set
/// and no exception is being handled, and for the main stack otherwise.
pub proof fn law_stack_banks(r: Registers, i: int)
    requires
        0 <= i < 16,
    ensures
        ({
            let process = r.control as int / 2 % 2 == 1 && r.xpsr as int % 512 == 0;
            &&& r.sp_banked().psp == (if process {
                r.r[13]
            } else {
                r.psp
            })
            &&& r.sp_banked().msp == (if process {
                r.msp
            } else {
                r.r[13]
            })
            &&& r.sp_banked().r == r.r
            &&& r.sp_unbanked().r[13] == (if process {
                r.psp
            } else {
                r.msp
            })
            &&& i != 13 ==> r.sp_unbanked().r[i] == r.r[i]
        }),
{
    crate::peripherals::laws::lemma_fields(r.xpsr);
    crate::peripherals::laws::lemma_fields(r.control);
    lemma_second_bit(r.control);
}

proof fn lemma_second_bit(x: u32)
    by (bit_vector)
    ensures
        x & 2 != 0 <==> x / 2 % 2 == 1,
{
}

/// A core that is not halted works on a bus that acts for it; a halted core
/// leaves the bus alone.
pub proof fn law_steps_act_for_their_core(cpu: CortexM0Plus, bus: BusState)
    ensures
        ({
            let mine = BusState { active_core: cpu.core_id, ..bus };
            let e = cpu.stepped(bus);
            &&& cpu.halted ==> e.bus == bus && e.cpu == cpu && e.cycles == 0
            &&& !cpu.halted ==> e.bus == cpu.worked(mine).bus && e.cpu.regs == cpu.worked(mine).cpu.regs && e.cycles
                == cpu.worked(mine).cycles
        }),
{
    reveal(CortexM0Plus::stepped);
}

} // verus!
