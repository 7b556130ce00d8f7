//! What a run of instructions that do nothing comes to, step by step.
use vstd::prelude::*;

use crate::bits::{lemma_empty_word, wadd};
use crate::bus::laws::{in_sram, law_sram_read};
use crate::bus::model::BusState;
use crate::coherence::{caches_coherent, law_pair_keeps_caches_coherent, law_stepping_keeps_caches_coherent};
use crate::cpu::coherence::{code_entry, coherent, fresh, half_at, lemma_code_is_read_from_memory, trustworthy};
use crate::cpu::cost::law_step_cost;
use crate::cpu::decode::{slot_of, DecodedOp};
use crate::cpu::step::fetched;
use crate::cpu::CortexM0Plus;
use crate::emulator::{refreshed, settled, ticks_in, EmulatorState};
use crate::memory::{MemoryView, Width, SRAM_SIZE};
use crate::pio::Pio;
use crate::quantum::{leaves_pio_alone, started, steps, steps_leave_pio_alone};

verus! {

/// Nothing on the chip but the cores and the PIO blocks has anything to do:
/// no interrupt is pending or can arise, no transfer runs, no timer counts.
pub open spec fn calm(b: BusState) -> bool {
    &&& !b.fault
    &&& !b.mmio_trace_enabled
    &&& b.irq_pending == 0
    &&& b.nvics[0].pending == 0
    &&& b.nvics[1].pending == 0
    &&& b.ppb[0].active == 0
    &&& b.ppb[0].icsr == 0
    &&& !b.systicks[0].enabled()
    &&& !b.systicks[1].enabled()
    &&& !b.wfe_waiting[0]
    &&& !b.wfe_waiting[1]
    &&& b.sio.pending_launch is None
    &&& forall|i: int| 0 <= i < 12 ==> !#[trigger] b.dma.channels[i].busy
    &&& b.dma.routed(0) == 0
    &&& !b.uart0.state.sending()
    &&& !b.uart1.state.sending()
    &&& !b.spi0.enabled()
    &&& !b.spi1.enabled()
    &&& b.i2c0.routed(0) == 0
    &&& b.i2c1.routed(0) == 0
    &&& !b.adc.busy()
    &&& b.adc.routed(0) == 0
    &&& forall|i: int| 0 <= i < 8 ==> !#[trigger] b.pwm.slices[i].enabled()
    &&& b.pwm.routed(0) == 0
    &&& b.timer.armed == 0
    &&& silent(b.pio[0])
    &&& silent(b.pio[1])
}

/// A PIO block that can raise no interrupt.
pub open spec fn silent(p: Pio) -> bool {
    p.inte0 == 0 && p.intf0 == 0 && p.inte1 == 0 && p.intf1 == 0
}

/// A silent block stays silent as it runs.
proof fn lemma_silent_block(p: Pio, n: nat, input: u32)
    requires
        silent(p),
    ensures
        silent(p.ran(n, input)),
        p.ints0() == 0,
        p.ints1() == 0,
    decreases n,
{
    lemma_empty_word(p.intr(), 0);
    if n > 0 {
        lemma_silent_block(p, (n - 1) as nat, input);
    }
}

proof fn lemma_calm_systick(b: BusState, n: int, count: nat)
    requires
        calm(b),
        0 <= n < 2,
    ensures
        b.after_systick_ticks(n, count) == b,
    decreases count,
{
    if count > 0 {
        lemma_calm_systick(b, n, (count - 1) as nat);
        reveal(BusState::after_systick_tick);
        assert(b.after_systick_tick(n).systicks =~= b.systicks);
        assert(b.after_systick_tick(n) =~= b);
    }
}

proof fn lemma_calm_pwm(b: BusState, n: nat, cycles: u32)
    requires
        calm(b),
        n <= 8,
    ensures
        b.pwm.run_upto(n, cycles) == b.pwm,
    decreases n,
{
    if n > 0 {
        lemma_calm_pwm(b, (n - 1) as nat, cycles);
        assert(!b.pwm.slices[n - 1].enabled());
        assert(b.pwm.run_upto(n, cycles).slices =~= b.pwm.slices);
    }
}

proof fn lemma_calm_peripherals(b: BusState, cycles: u32)
    requires
        calm(b),
    ensures
        b.after_peripheral_ticks(cycles) == b,
{
    lemma_calm_pwm(b, 8, cycles);
    reveal(BusState::after_peripheral_ticks);
    assert(b.after_peripheral_ticks(cycles) =~= b);
}

proof fn lemma_calm_dma(b: BusState, n: nat)
    requires
        calm(b),
    ensures
        b.after_dma_ticks(n) == b,
    decreases n,
{
    if n > 0 {
        lemma_calm_dma(b, (n - 1) as nat);
        crate::dma::law_lowest_ready_channel_wins(b.dma, 0, b.dreqs());
        reveal(BusState::after_dma_tick);
        assert(b.after_dma_tick() =~= b);
    }
}

proof fn lemma_calm_alarms(b: BusState, cycle: u64)
    requires
        calm(b),
    ensures
        b.after_alarms(cycle) == b,
{
    let t = b.timer;
    lemma_empty_word(0, 0);
    lemma_empty_word(0, 1);
    lemma_empty_word(0, 2);
    lemma_empty_word(0, 3);
    assert(!t.due(0, cycle) && !t.due(1, cycle) && !t.due(2, cycle) && !t.due(3, cycle));
    assert(t.fired_upto(4, cycle) == t && t.fired_lines_upto(4, cycle) == 0) by {
        reveal_with_fuel(crate::peripherals::timer::TimerRegs::fired_upto, 5);
        reveal_with_fuel(crate::peripherals::timer::TimerRegs::fired_lines_upto, 5);
    }
    reveal(BusState::after_alarms);
    assert(b.after_alarms(cycle) =~= b);
}

proof fn lemma_calm_latch(b: BusState)
    requires
        calm(b),
    ensures
        b.irqs_latched() == b,
{
    lemma_empty_word(crate::irq::IRQ_MASK, 0);
    reveal(BusState::irqs_latched);
    assert(b.irqs_latched().nvics =~= b.nvics);
    assert(b.irqs_latched() =~= b);
}

/// What the passing of time does to a calm bus: the clock moves, the PIO
/// blocks run, and the pins follow.
proof fn lemma_calm_bus(b: BusState, n: u32, now: u64)
    requires
        calm(b),
    ensures
        ({
            let start = BusState { master_cycle: now, ..b };
            let moved = start.after_peripheral_ticks(n).after_pio_ticks(n).after_dma_ticks(n as nat).after_alarms(
                now,
            ).irqs_latched().pins_merged();
            &&& calm(moved)
            &&& moved == (BusState { master_cycle: now, pio: moved.pio, gpio_in: moved.gpio_in, ..b })
            &&& moved.pio[0] == b.pio[0].after_tick(n, b.gpio_in)
            &&& moved.pio[1] == b.pio[1].after_tick(n, b.gpio_in)
        }),
{
    let start = BusState { master_cycle: now, ..b };
    lemma_calm_peripherals(start, n);
    let ticked = start.after_pio_ticks(n);
    let p0 = Pio { input: b.gpio_in, ..b.pio[0] };
    let p1 = Pio { input: b.gpio_in, ..b.pio[1] };
    lemma_silent_block(p0, n as nat, b.gpio_in);
    lemma_silent_block(p1, n as nat, b.gpio_in);
    lemma_silent_block(p0.ran(n as nat, b.gpio_in), 0, b.gpio_in);
    lemma_silent_block(p1.ran(n as nat, b.gpio_in), 0, b.gpio_in);
    assert(ticked == (BusState { pio: ticked.pio, ..start }) && ticked.pio[0] == b.pio[0].after_tick(n, b.gpio_in)
        && ticked.pio[1] == b.pio[1].after_tick(n, b.gpio_in)) by {
        reveal(BusState::after_pio_ticks);
    }
    lemma_calm_dma(ticked, n as nat);
    lemma_calm_alarms(ticked, now);
    lemma_calm_latch(ticked);
    reveal(BusState::pins_merged);
}

/// Catching up changes a core's cache alone.
proof fn lemma_refresh_keeps(cpu: CortexM0Plus, b: BusState)
    ensures
        refreshed(cpu, b) == (CortexM0Plus { decode_cache: refreshed(cpu, b).decode_cache, ..cpu }),
{
    let addrs = b.pending_cache_invalidations;
    lemma_listed_keeps(cpu, addrs, addrs.len());
    let listed = cpu.without_listed(addrs, addrs.len());
    lemma_regions_keep(listed, 1024, b.pending_invalidation_regions);
}

proof fn lemma_listed_keeps(cpu: CortexM0Plus, addrs: Seq<u32>, n: nat)
    ensures
        cpu.without_listed(addrs, n) == (CortexM0Plus {
            decode_cache: cpu.without_listed(addrs, n).decode_cache,
            ..cpu
        }),
    decreases n,
{
    if n > 0 {
        lemma_listed_keeps(cpu, addrs, (n - 1) as nat);
    }
}

proof fn lemma_regions_keep(cpu: CortexM0Plus, n: nat, regions: u32)
    ensures
        cpu.without_regions_upto(n, regions) == (CortexM0Plus {
            decode_cache: cpu.without_regions_upto(n, regions).decode_cache,
            ..cpu
        }),
    decreases n,
{
    if n > 0 {
        lemma_regions_keep(cpu, (n - 1) as nat, regions);
    }
}

/// Address `k` of the program that does nothing.
pub open spec fn nop_address(k: nat) -> u32 {
    (0x2000_1000 + 2 * k) as u32
}

/// The program is in memory.
pub open spec fn nops_in_place(m: MemoryView) -> bool {
    &&& m.sram.len() == SRAM_SIZE
    &&& forall|k: nat| k < 256 ==> half_at(m, #[trigger] nop_address(k)) == 0xBF00
}

/// Whatever a cache holds of memory is what memory holds.
pub open spec fn up_to_date(cache: [DecodedOp; 1024], m: MemoryView) -> bool {
    forall|s: int| 0 <= s < 1024 && code_entry(#[trigger] cache[s]) ==> fresh(m, cache[s])
}

/// A core about to run instruction `k` of the program, with nothing in its
/// way.
pub open spec fn about_to_run(cpu: CortexM0Plus, m: MemoryView, k: nat) -> bool {
    &&& cpu.core_id == 0
    &&& !cpu.halted
    &&& cpu.pending_fault is None
    &&& cpu.regs.r[15] == nop_address(k)
    &&& up_to_date(cpu.decode_cache, m)
}

/// On a calm bus core 0 takes no exception.
proof fn lemma_nothing_to_take(cpu: CortexM0Plus, b: BusState)
    requires
        calm(b),
        cpu.core_id == 0,
    ensures
        cpu.dispatched(b) == cpu.took(b, 0),
{
    reveal(CortexM0Plus::dispatched);
    lemma_empty_word(crate::bus::ppb::ICSR_PENDSVSET, 0);
    lemma_empty_word(crate::bus::ppb::ICSR_PENDSTSET, 0);
    lemma_empty_word(b.nvics[0].enabled, 0);
    assert forall|i: int| !b.nvics[0].asserts(i) by {
        if 0 <= i < 32 {
            lemma_empty_word(0, i as u32);
        }
    }
}

/// The instruction that does nothing does nothing, in one cycle.
proof fn lemma_nop_executed(cpu: CortexM0Plus, b: BusState, op: DecodedOp)
    requires
        op.hw0 == 0xBF00,
        !op.wide,
    ensures
        cpu.executed(b, op) == (CortexM0Plus {
            current_instr_addr: cpu.regs.r[15],
            regs: cpu.regs.with_reg(15, wadd(cpu.regs.r[15], 2)),
            ..cpu
        }).took(b, 1),
{
    reveal(CortexM0Plus::executed);
    reveal(CortexM0Plus::thumb16);
    reveal(CortexM0Plus::misc);
    reveal(CortexM0Plus::hint);
}

/// Fetching and executing it: from the cache or from memory, it is the same
/// instruction.
proof fn lemma_nop_advanced(cpu: CortexM0Plus, b: BusState, k: nat)
    requires
        calm(b),
        nops_in_place(b.memory),
        about_to_run(cpu, b.memory, k),
        k < 256,
    ensures
        ({
            let e = cpu.advanced(b);
            &&& e.cycles == 1
            &&& e.cpu == (CortexM0Plus {
                current_instr_addr: nop_address(k),
                regs: cpu.regs.with_reg(15, nop_address(k + 1)),
                decode_cache: e.cpu.decode_cache,
                ..cpu
            })
            &&& e.bus == (BusState { last_access_cycles: e.bus.last_access_cycles, ..b })
        }),
{
    let pc = nop_address(k);
    assert(half_at(b.memory, pc) == 0xBF00);
    assert(wadd(pc, 2) == nop_address(k + 1)) by {
        reveal(wadd);
    }
    reveal(CortexM0Plus::advanced);
    match cpu.cached() {
        Some(op) => {
            assert(op == cpu.decode_cache[slot_of(pc)]);
            assert(code_entry(op)) by {
                reveal(wadd);
            }
            assert(fresh(b.memory, cpu.decode_cache[slot_of(pc)]));
            lemma_nop_executed(cpu, b, op);
        },
        None => {
            assert(in_sram(b, pc, Width::Half));
            law_sram_read(b, pc, Width::Half);
            lemma_code_is_read_from_memory(b, pc);
            let op = DecodedOp { tag: pc, hw0: 0xBF00, hw1: 0, wide: false };
            let b1 = b.after_read(pc, Width::Half);
            assert(fetched(b, pc).op == Some(op) && fetched(b, pc).bus == b1) by {
                reveal(fetched);
            }
            lemma_nop_executed(cpu.remembering(op), b1, op);
        },
    }
}

/// A step of core 0 through it.
proof fn lemma_nop_stepped(cpu: CortexM0Plus, b: BusState, k: nat)
    requires
        calm(b),
        nops_in_place(b.memory),
        about_to_run(cpu, b.memory, k),
        k < 256,
    ensures
        ({
            let e = cpu.stepped(b);
            &&& e.cycles == 1
            &&& e.cpu.core_id == 0
            &&& !e.cpu.halted
            &&& e.cpu.pending_fault is None
            &&& e.cpu.regs.r[15] == nop_address(k + 1)
            &&& e.bus == (BusState { active_core: 0, last_access_cycles: e.bus.last_access_cycles, ..b })
        }),
{
    let b0 = BusState { active_core: 0, ..b };
    lemma_nothing_to_take(cpu, b0);
    lemma_nop_advanced(cpu, b0, k);
    reveal(CortexM0Plus::stepped);
    reveal(CortexM0Plus::worked);
}

/// A chip whose core 0 is about to run instruction `k` of the program while
/// core 1 waits.
pub open spec fn on_nops(e: EmulatorState, k: nat) -> bool {
    &&& calm(e.bus)
    &&& nops_in_place(e.bus.memory)
    &&& about_to_run(e.core0, e.bus.memory, k)
    &&& e.core1.halted
    &&& caches_coherent(e)
}

/// With no invalidation waiting, a coherent cache is up to date.
proof fn lemma_up_to_date(cache: [DecodedOp; 1024], b: BusState)
    requires
        coherent(cache, b),
        b.pending_cache_invalidations.len() == 0,
        b.pending_invalidation_regions == 0,
    ensures
        up_to_date(cache, b.memory),
{
    assert forall|s: int| 0 <= s < 1024 && code_entry(#[trigger] cache[s]) implies fresh(b.memory, cache[s]) by {
        assert(trustworthy(cache[s], s, b));
        crate::cpu::trust::lemma_no_region(cache[s].tag);
    }
}

/// One instruction of the program takes one cycle and touches nothing else.
proof fn lemma_nop_pair(e: EmulatorState, k: nat)
    requires
        on_nops(e, k),
        k < 256,
    ensures
        ({
            let (f, cycles) = e.pair_stepped();
            &&& cycles == 1
            &&& on_nops(f, k + 1)
            &&& f.bus.pio == e.bus.pio
            &&& f.bus.dma == e.bus.dma
            &&& f.bus.gpio_in == e.bus.gpio_in
            &&& f.clock == e.clock
            &&& f.quantum == e.quantum
            &&& f.max_pc == e.max_pc
        }),
{
    law_pair_keeps_caches_coherent(e);
    lemma_nop_stepped(e.core0, e.bus, k);
    let a = e.core0.stepped(e.bus);
    law_step_cost(e.core1, a.bus);
    lemma_calm_systick(a.bus, 0, 1);
    lemma_refresh_keeps(a.cpu, a.bus);
    lemma_refresh_keeps(e.core1, a.bus);
    reveal(EmulatorState::pair_stepped);
    let f = e.pair_stepped().0;
    lemma_up_to_date(f.core0.decode_cache, f.bus);
}

proof fn lemma_nops_ran(e: EmulatorState, k: nat, spent: nat, budget: nat)
    requires
        on_nops(e, k),
        spent <= budget,
        k + (budget - spent) <= 256,
    ensures
        ({
            let (f, total) = e.ran(spent, budget);
            &&& total == budget
            &&& on_nops(f, (k + (budget - spent)) as nat)
            &&& f.bus.pio == e.bus.pio
            &&& f.bus.dma == e.bus.dma
            &&& f.clock == e.clock
            &&& f.quantum == e.quantum
        }),
    decreases budget - spent,
{
    if spent < budget {
        lemma_nop_pair(e, k);
        let f = e.pair_stepped().0;
        lemma_nops_ran(f, k + 1, spent + 1, budget);
    }
}

/// Time passes on a calm chip without disturbing its cores.
proof fn lemma_nops_serviced(e: EmulatorState, k: nat, cycles: u64)
    requires
        on_nops(e, k),
    ensures
        calm(e.serviced(cycles).bus),
        nops_in_place(e.serviced(cycles).bus.memory),
        e.serviced(cycles).core1.halted,
        e.serviced(cycles).core0.core_id == 0,
        !e.serviced(cycles).core0.halted,
        e.serviced(cycles).core0.pending_fault is None,
        e.serviced(cycles).core0.regs.r[15] == nop_address(k),
        e.serviced(cycles).bus.pending_cache_invalidations.len() == 0,
        e.serviced(cycles).bus.pending_invalidation_regions == 0,
        e.serviced(cycles).quantum == e.quantum,
{
    let now = ((e.clock + cycles) % 0x1_0000_0000_0000_0000) as u64;
    let n = ticks_in(cycles);
    lemma_calm_bus(e.bus, n, now);
    reveal(EmulatorState::serviced);
    reveal(BusState::time_passed);
    let moved = (BusState { master_cycle: now, ..e.bus }).after_peripheral_ticks(n).after_pio_ticks(n).after_dma_ticks(n as nat).after_alarms(
        now,
    ).irqs_latched().pins_merged();
    lemma_refresh_keeps(e.core0, moved);
    lemma_refresh_keeps(e.core1, moved);
    lemma_empty_word(moved.nvics[0].enabled, 0);
    lemma_empty_word(moved.nvics[1].enabled, 0);
    let done = settled(moved);
    assert(done.unparked(0) == done && done.unparked(1) == done);
}

/// A step through the program takes exactly its quantum, executes exactly as
/// many instructions, and leaves the PIO blocks to their own clocks.
pub proof fn law_a_step_over_nops(e: EmulatorState, k: nat)
    requires
        on_nops(e, k),
        e.quantum > 0,
        k + e.quantum <= 256,
    ensures
        e.stepped().1 == e.quantum,
        on_nops(e.stepped().0, k + e.quantum as nat),
        e.stepped().0.quantum == e.quantum,
        leaves_pio_alone(e),
{
    let s = started(e);
    assert(caches_coherent(s)) by {
        lemma_started_is_coherent(e);
    }
    lemma_nops_ran(s, k, 0, e.budget());
    let (ran, spent) = s.ran(0, e.budget());
    lemma_nops_serviced(ran, k + e.quantum as nat, spent as u64);
    law_stepping_keeps_caches_coherent(e);
    let f = e.stepped().0;
    lemma_up_to_date(f.core0.decode_cache, f.bus);
}

proof fn lemma_started_is_coherent(e: EmulatorState)
    requires
        caches_coherent(e),
    ensures
        caches_coherent(started(e)),
{
    crate::cpu::coherence::lemma_trust_is_kept_where_memory_is(e.bus, started(e).bus);
    reveal(crate::cpu::coherence::keeps_trust);
    assert forall|s: int| 0 <= s < 1024 implies trustworthy(
        #[trigger] e.core0.decode_cache[s],
        s,
        started(e).bus,
    ) by {
        assert(trustworthy(e.core0.decode_cache[s], s, e.bus));
    }
    assert forall|s: int| 0 <= s < 1024 implies trustworthy(
        #[trigger] e.core1.decode_cache[s],
        s,
        started(e).bus,
    ) by {
        assert(trustworthy(e.core1.decode_cache[s], s, e.bus));
    }
}

/// So do any number of steps, as long as the program lasts.
pub proof fn law_steps_over_nops(e: EmulatorState, k: nat, n: nat)
    requires
        on_nops(e, k),
        e.quantum > 0,
        k + n * e.quantum <= 256,
    ensures
        steps(e, n).1 == n * e.quantum,
        on_nops(steps(e, n).0, (k + n * e.quantum) as nat),
        steps(e, n).0.quantum == e.quantum,
        steps_leave_pio_alone(e, n),
    decreases n,
{
    if n > 0 {
        let m = (n - 1) as nat;
        let q = e.quantum as int;
        assert(m * q + q == n * q) by (nonlinear_arith)
            requires
                m == n - 1,
        ;
        law_steps_over_nops(e, k, m);
        law_a_step_over_nops(steps(e, m).0, (k + m * q) as nat);
    }
}

} // verus!
