//! What a step of the whole chip promises.
use vstd::prelude::*;

use crate::bus::model::BusState;
use crate::cpu::cost::law_step_cost;
use crate::cpu::exceptions::ENTRY_CYCLES;
use crate::cpu::execute::MAX_CYCLES;
use crate::cpu::systick::ticked;
use crate::emulator::EmulatorState;
use crate::pio::{law_time_can_be_divided, lemma_sample_rides_along, unseeing, Pio};

verus! {

/// The most that one instruction of each core can cost.
pub open spec fn pair_limit() -> nat {
    (MAX_CYCLES + ENTRY_CYCLES) as nat
}

/// A pair of instructions leaves the master clock and the quantum alone, and
/// costs no more than the longest step.
proof fn lemma_pair(e: EmulatorState)
    ensures
        e.pair_stepped().1 <= pair_limit(),
        e.pair_stepped().0.clock == e.clock,
        e.pair_stepped().0.quantum == e.quantum,
{
    reveal(EmulatorState::pair_stepped);
    law_step_cost(e.core0, e.bus);
    let a = if e.bus.parked(0) {
        e.core0.took(e.bus, 0)
    } else {
        e.core0.stepped(e.bus)
    };
    law_step_cost(e.core1, a.bus);
}

/// `count` clocks of the SysTick of core `n` count it down and leave the
/// other's alone.
proof fn lemma_systick_ticks(b: BusState, n: int, count: nat)
    requires
        0 <= n < 2,
    ensures
        b.after_systick_ticks(n, count).systicks[n] == ticked(b.systicks[n], count),
        b.after_systick_ticks(n, count).systicks[1 - n] == b.systicks[1 - n],
    decreases count,
{
    if count > 0 {
        lemma_systick_ticks(b, n, (count - 1) as nat);
        reveal(BusState::after_systick_tick);
    }
}

/// In a pair of instructions each SysTick counts the cycles that its own core
/// takes, however long the other one runs.
pub proof fn law_systick_counts_the_cycles_of_its_core(e: EmulatorState)
    ensures
        e.pair_stepped().0.bus.systicks[0] == ticked(
            e.second_ran().bus.systicks[0],
            e.first_ran().cycles as nat,
        ),
        e.pair_stepped().0.bus.systicks[1] == ticked(
            e.second_ran().bus.systicks[1],
            e.second_ran().cycles as nat,
        ),
{
    reveal(EmulatorState::pair_stepped);
    let b = e.second_ran().bus;
    lemma_systick_ticks(b, 0, e.first_ran().cycles as nat);
    let c = b.after_systick_ticks(0, e.first_ran().cycles as nat);
    lemma_systick_ticks(c, 1, e.second_ran().cycles as nat);
}

/// The SysTick of a core that is halted or waits for an event stands still:
/// what the other core left of it is what is there after the pair.
pub proof fn law_stopped_core_stops_its_systick(e: EmulatorState)
    ensures
        e.core0.halted || e.bus.parked(0) ==> e.pair_stepped().0.bus.systicks[0]
            == e.second_ran().bus.systicks[0],
        e.core1.halted || e.first_ran().bus.parked(1) ==> e.pair_stepped().0.bus.systicks[1]
            == e.first_ran().bus.systicks[1],
        (e.core0.halted || e.bus.parked(0)) && (e.core1.halted || e.bus.parked(1))
            ==> e.pair_stepped().0.bus.systicks == e.bus.systicks,
{
    law_systick_counts_the_cycles_of_its_core(e);
    law_step_cost(e.core0, e.bus);
    law_step_cost(e.core1, e.first_ran().bus);
    if (e.core0.halted || e.bus.parked(0)) && (e.core1.halted || e.bus.parked(1)) {
        assert(e.pair_stepped().0.bus.systicks =~= e.bus.systicks);
    }
}

/// Running the cores stops where a pair costs nothing, and otherwise only
/// when the budget is spent.
pub open spec fn at_rest(e: EmulatorState) -> bool {
    exists|before: EmulatorState| before.pair_stepped() == (e, 0u32)
}

/// The chip after `n` pairs of instructions, and the cycles that they took in
/// all.
pub open spec fn pairs(e: EmulatorState, n: nat) -> (EmulatorState, nat)
    decreases n,
{
    if n == 0 {
        (e, 0)
    } else {
        let (next, cycles) = e.pair_stepped();
        let (after, total) = pairs(next, (n - 1) as nat);
        (after, cycles as nat + total)
    }
}

/// A run within `budget` ends with the pair after the first `n`: those have
/// left some of the budget, and that one spends the rest of it or costs
/// nothing.
pub open spec fn ends_after(e: EmulatorState, n: nat, budget: nat, after: EmulatorState, spent: nat) -> bool {
    let (before, so_far) = pairs(e, n);
    let (last, cost) = before.pair_stepped();
    &&& so_far < budget
    &&& after == last
    &&& spent == so_far + cost
    &&& spent >= budget || cost == 0
}

/// A run within `budget` ends so for some number of pairs.
pub open spec fn runs_out(e: EmulatorState, budget: nat, after: EmulatorState, spent: nat) -> bool {
    exists|n: nat| ends_after(e, n, budget, after, spent)
}

proof fn lemma_ran(e: EmulatorState, spent: nat, budget: nat)
    requires
        spent < budget,
    ensures
        ({
            let (after, total) = e.ran(spent, budget);
            &&& spent <= total < budget + pair_limit()
            &&& total >= budget || at_rest(after)
            &&& runs_out(e, (budget - spent) as nat, after, (total - spent) as nat)
            &&& after.clock == e.clock
            &&& after.quantum == e.quantum
        }),
    decreases budget - spent,
{
    lemma_pair(e);
    let (next, cycles) = e.pair_stepped();
    let (after, total) = e.ran(spent, budget);
    let left = (budget - spent) as nat;
    if cycles == 0 {
        assert(e.pair_stepped() == (next, 0u32));
        assert(ends_after(e, 0, left, after, (total - spent) as nat));
    } else if spent + cycles < budget {
        let so_far = spent + cycles as nat;
        lemma_ran(next, so_far, budget);
        let rest = (budget - so_far) as nat;
        let used = (total - so_far) as nat;
        let n = choose|n: nat| ends_after(next, n, rest, after, used);
        assert(ends_after(e, n + 1, left, after, (total - spent) as nat));
    } else {
        assert(next.ran(spent + cycles as nat, budget) == (next, spent + cycles as nat));
        assert(ends_after(e, 0, left, after, (total - spent) as nat));
    }
}

/// The chip as a step starts to run it: the bus sees the master clock.
pub open spec fn started(e: EmulatorState) -> EmulatorState {
    EmulatorState { bus: BusState { master_cycle: e.clock, ..e.bus }, ..e }
}

/// The cores run for a whole quantum, unless both stop: before the last pair
/// of instructions the cycles spent are below the quantum, and with it they
/// reach it. So the overshoot is less than what that pair costs, which in
/// turn is bounded.
pub proof fn law_quantum_window(e: EmulatorState)
    requires
        e.quantum > 0,
    ensures
        ({
            let (after, spent) = started(e).ran(0, e.budget());
            &&& runs_out(started(e), e.budget(), after, spent)
            &&& spent >= e.budget() || at_rest(after)
            &&& spent < e.budget() + pair_limit()
            &&& spent > 0 ==> e.stepped().1 == spent
            &&& spent == 0 ==> e.stepped().1 <= e.budget()
        }),
{
    lemma_ran(started(e), 0, e.budget());
}

/// A quantum of one is exactly one instruction of each core that can run.
pub proof fn law_quantum_of_one_is_one_instruction(e: EmulatorState)
    requires
        e.quantum == 1,
    ensures
        ({
            let (after, cycles) = started(e).pair_stepped();
            started(e).ran(0, e.budget()) == (after, cycles as nat)
        }),
{
    let (next, cycles) = started(e).pair_stepped();
    if cycles > 0 {
        assert(next.ran(cycles as nat, 1) == (next, cycles as nat));
    }
}

/// What a step returns is how far the master clock has moved.
pub proof fn law_step_returns_the_clock_delta(e: EmulatorState)
    ensures
        e.stepped().0.clock == (e.clock + e.stepped().1) % 0x1_0000_0000_0000_0000,
        e.stepped().0.quantum == e.quantum,
{
    if e.budget() > 0 {
        lemma_ran(started(e), 0, e.budget());
    }
    reveal(EmulatorState::serviced);
}

/// A step takes fewer cycles than a word of 64 bits can hold.
pub proof fn law_step_is_short(e: EmulatorState)
    ensures
        e.stepped().1 <= u32::MAX + pair_limit(),
{
    if e.budget() > 0 {
        lemma_ran(started(e), 0, e.budget());
    }
}

/// The chip after `n` steps, and the cycles that they took in all.
pub open spec fn steps(e: EmulatorState, n: nat) -> (EmulatorState, nat)
    decreases n,
{
    if n == 0 {
        (e, 0)
    } else {
        let (before, total) = steps(e, (n - 1) as nat);
        let (after, cycles) = before.stepped();
        (after, total + cycles)
    }
}

/// In the step from `e`, which takes fewer than 2^32 cycles, neither the
/// cores nor the DMA controller touch a PIO block.
pub open spec fn leaves_pio_alone(e: EmulatorState) -> bool {
    let ran = started(e).ran(0, e.budget()).0;
    &&& e.stepped().1 <= u32::MAX
    &&& ran.bus.pio == e.bus.pio
    &&& forall|i: int| 0 <= i < 12 ==> !#[trigger] ran.bus.dma.channels[i].busy
}

/// None of the first `n` steps does.
pub open spec fn steps_leave_pio_alone(e: EmulatorState, n: nat) -> bool {
    forall|k: nat| k < n ==> leaves_pio_alone(#[trigger] steps(e, k).0)
}

/// With no busy channel the DMA controller moves nothing.
proof fn lemma_idle_dma(b: BusState, n: nat)
    requires
        forall|i: int| 0 <= i < 12 ==> !#[trigger] b.dma.channels[i].busy,
    ensures
        b.after_dma_ticks(n).pio == b.pio,
        b.after_dma_ticks(n).dma == b.dma,
    decreases n,
{
    if n > 0 {
        lemma_idle_dma(b, (n - 1) as nat);
        let c = b.after_dma_ticks((n - 1) as nat);
        crate::dma::law_lowest_ready_channel_wins(c.dma, 0, c.dreqs());
        reveal(BusState::after_dma_tick);
    }
}

/// Each step ticks the PIO blocks once, for as many clocks as it returns.
pub proof fn law_step_ticks_pio_once(e: EmulatorState, i: int)
    requires
        leaves_pio_alone(e),
        0 <= i < 2,
    ensures
        exists|pins: u32| e.stepped().0.bus.pio[i] == #[trigger] e.bus.pio[i].after_tick(e.stepped().1 as u32, pins),
{
    if e.budget() > 0 {
        lemma_ran(started(e), 0, e.budget());
    }
    let ran = started(e).ran(0, e.budget()).0;
    let cycles = e.stepped().1 as u32;
    let now = ((ran.clock + cycles) % 0x1_0000_0000_0000_0000) as u64;
    let b0 = BusState { master_cycle: now, ..ran.bus };
    let b3 = b0.after_peripheral_ticks(cycles);
    assert(b3.pio == b0.pio && b3.dma == b0.dma) by {
        reveal(BusState::after_peripheral_ticks);
    }
    let b4 = b3.after_pio_ticks(cycles);
    assert(b4.pio[i] == b3.pio[i].after_tick(cycles, b3.gpio_in) && b4.dma == b3.dma) by {
        reveal(BusState::after_pio_ticks);
    }
    lemma_idle_dma(b4, cycles as nat);
    let b5 = b4.after_dma_ticks(cycles as nat);
    let b8 = b5.after_alarms(now).irqs_latched().pins_merged();
    assert(b8.pio == b5.pio) by {
        reveal(BusState::after_alarms);
        reveal(BusState::irqs_latched);
        reveal(BusState::pins_merged);
    }
    assert(e.stepped().0.bus.pio == b8.pio) by {
        reveal(EmulatorState::serviced);
        reveal(BusState::time_passed);
    }
    assert(e.stepped().0.bus.pio[i] == e.bus.pio[i].after_tick(cycles, b3.gpio_in));
}

/// A PIO block that does not act on its pins is, after any number of steps
/// that leave it alone, where that many clocks in one piece would put it.
pub proof fn law_steps_add_up_for_pio(e: EmulatorState, n: nat, i: int, pins: u32)
    requires
        steps_leave_pio_alone(e, n),
        0 <= i < 2,
        unseeing(e.bus.pio[i]),
    ensures
        (Pio { input: pins, ..steps(e, n).0.bus.pio[i] }) == (Pio { input: pins, ..e.bus.pio[i] }).ran(
            steps(e, n).1,
            pins,
        ),
    decreases n,
{
    let p = e.bus.pio[i];
    lemma_sample_rides_along(p, pins, steps(e, n).1, pins);
    if n > 0 {
        let m = (n - 1) as nat;
        law_steps_add_up_for_pio(e, m, i, pins);
        let (before, total) = steps(e, m);
        lemma_sample_rides_along(p, pins, total, pins);
        law_step_ticks_pio_once(before, i);
        let cycles = before.stepped().1;
        let q = before.bus.pio[i];
        let seen = choose|x: u32| before.stepped().0.bus.pio[i] == #[trigger] q.after_tick(cycles as u32, x);
        lemma_sample_rides_along(q, seen, cycles, seen);
        lemma_sample_rides_along(q, pins, cycles, seen);
        lemma_sample_rides_along(p.ran(total, pins), pins, cycles, seen);
        law_time_can_be_divided(p, total, cycles, pins, seen, pins);
    }
}

/// However two chips divide their time into steps, a PIO block that both
/// started with and that does not act on its pins is in the same state once
/// both have run for equally long: one long quantum is many short ones.
pub proof fn law_one_long_quantum_is_many_short_ones(
    e: EmulatorState,
    n: nat,
    f: EmulatorState,
    m: nat,
    i: int,
    pins: u32,
)
    requires
        0 <= i < 2,
        e.bus.pio[i] == f.bus.pio[i],
        unseeing(e.bus.pio[i]),
        steps_leave_pio_alone(e, n),
        steps_leave_pio_alone(f, m),
        steps(e, n).1 == steps(f, m).1,
    ensures
        (Pio { input: pins, ..steps(e, n).0.bus.pio[i] }) == (Pio { input: pins, ..steps(f, m).0.bus.pio[i] }),
{
    law_steps_add_up_for_pio(e, n, i, pins);
    law_steps_add_up_for_pio(f, m, i, pins);
}

} // verus!
