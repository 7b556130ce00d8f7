//! Which exceptions wait, which one a core takes, and what is then no longer
//! pending.
use vstd::prelude::*;

use crate::bits::{bit, lemma_bit_ops};
use crate::bus::model::BusState;
use crate::bus::ppb::Ppb;
use crate::cpu::nvic::Nvic;
use crate::cpu::CortexM0Plus;
use crate::peripherals::laws::{lemma_fields, lemma_mask_bits};

verus! {

/// A line asks for its exception when it is both pending and enabled.
pub proof fn law_line_asks(v: Nvic, i: int)
    ensures
        v.asserts(i) == (0 <= i < 32 && bit(v.pending, i) && bit(v.enabled, i)),
{
    if 0 <= i < 32 {
        lemma_bit_ops(v.pending, v.enabled, i as u32, 0);
    }
}

/// A core takes the next exception unless its interrupts are masked or a
/// handler is active on it; taking it means that it is no longer pending and
/// is entered.
pub proof fn law_taking(cpu: CortexM0Plus, bus: BusState)
    requires
        cpu.core_id < 2,
    ensures
        ({
            let n = cpu.core_id as int;
            let next = bus.next_exception(n);
            let blocked = cpu.regs.primask % 2 == 1 || bus.ppb[n].active != 0;
            &&& blocked || next is None ==> cpu.dispatched(bus).cpu == cpu && cpu.dispatched(bus).bus == bus
                && cpu.dispatched(bus).cycles == 0
            &&& next matches Some(c) ==> (!blocked ==> cpu.dispatched(bus) == cpu.entered(
                bus.acknowledged(n, c.number),
                c.number,
            ))
        }),
{
    lemma_fields(cpu.regs.primask);
    lemma_bit_ops(cpu.regs.primask, 0, 0, 0);
    reveal(CortexM0Plus::dispatched);
}

/// An exception that is taken is dropped where it was latched, and only there:
/// number fourteen in bit 28 and number fifteen in bit 26 of the control word,
/// line `k` of the interrupt controller for number sixteen plus `k`. The
/// other core keeps its own.
pub proof fn law_taken_is_dropped(b: BusState, n: int, m: int, number: u32, i: int)
    requires
        0 <= n < 2,
        0 <= m < 2,
        14 <= number < 42,
        0 <= i < 32,
    ensures
        ({
            let after = b.acknowledged(n, number);
            &&& bit(after.ppb[n].icsr, i) == (bit(b.ppb[n].icsr, i) && !(number == 14 && i == 28) && !(number == 15 && i
                == 26))
            &&& bit(after.nvics[n].pending, i) == (bit(b.nvics[n].pending, i) && number != 16 + i)
            &&& after.nvics[n].enabled == b.nvics[n].enabled
            &&& after.nvics[n].priority == b.nvics[n].priority
            &&& m != n ==> after.ppb[m] == b.ppb[m] && after.nvics[m] == b.nvics[m]
            &&& after.memory == b.memory
        }),
{
    lemma_mask_bits(i as u32);
    lemma_bit_ops(b.ppb[n].icsr, 0x1000_0000, i as u32, 0);
    lemma_bit_ops(b.ppb[n].icsr, 0x0400_0000, i as u32, 0);
    if number >= 16 {
        lemma_bit_ops(b.nvics[n].pending, 0, i as u32, (number - 16) as u32);
    }
}

/// Enabling and disabling a line changes that line alone, as far as it exists;
/// a priority keeps its top two bits.
pub proof fn law_line_settings(v: Nvic, irq: u8, prio: u8, i: int)
    requires
        0 <= i < 32,
    ensures
        bit(v.with_enabled(irq).enabled, i) == (bit(v.enabled, i) || (irq < 26 && i == irq)),
        bit(v.without_enabled(irq).enabled, i) == (bit(v.enabled, i) && !(irq < 26 && i == irq)),
        bit(v.with_pending(irq).pending, i) == (bit(v.pending, i) || (irq < 26 && i == irq)),
        bit(v.without_pending(irq).pending, i) == (bit(v.pending, i) && !(irq < 26 && i == irq)),
        v.with_priority(irq, prio).priority[i] as int == (if i == irq {
            prio as int / 64 * 64
        } else {
            v.priority[i] as int
        }),
        v.with_enabled(irq).pending == v.pending && v.with_enabled(irq).priority == v.priority,
        v.with_priority(irq, prio).pending == v.pending && v.with_priority(irq, prio).enabled == v.enabled,
{
    if irq < 32 {
        lemma_bit_ops(v.enabled, 0, i as u32, irq as u32);
        lemma_bit_ops(v.pending, 0, i as u32, irq as u32);
    }
    crate::cpu::system_laws::lemma_top_two(prio);
}

proof fn lemma_actives(a: u64, n: u64, k: u64)
    by (bit_vector)
    requires
        n < 64,
        k < 64,
    ensures
        ((a | (1u64 << n)) >> k) & 1 == 1 <==> ((a >> k) & 1 == 1 || k == n),
        ((a & !(1u64 << n)) >> k) & 1 == 1 <==> ((a >> k) & 1 == 1 && k != n),
{
}

/// Marking an exception active, or no longer active, changes that one alone.
pub proof fn law_active_marks(p: Ppb, n: u32, k: u64)
    requires
        n < 64,
        k < 64,
    ensures
        (p.with_active(n).active >> k) & 1 == 1 <==> ((p.active >> k) & 1 == 1 || k == n),
        (p.without_active(n).active >> k) & 1 == 1 <==> ((p.active >> k) & 1 == 1 && k != n),
        p.with_active(n).icsr == p.icsr && p.with_active(n).vtor == p.vtor,
{
    lemma_actives(p.active, n as u64, k);
}

} // verus!
