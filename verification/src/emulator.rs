//! The whole chip: two cores on one bus, advanced a quantum at a time.
use vstd::array::spec_array_update;
use vstd::prelude::*;

use crate::bus::model::BusState;
use crate::bus::ppb::Ppb;
use crate::bus::sio::{LaunchRequest, Sio};
use crate::bus::Bus;
use crate::clocks::{ClockTree, ROSC_HZ};
use crate::cpu::exceptions::ENTRY_CYCLES;
use crate::cpu::execute::MAX_CYCLES;
use crate::cpu::registers::{Registers, XPSR_T};
use crate::cpu::{CortexM0Plus, Effect};
use crate::workers::{Crew, ExecutionModel, WorkerName};

verus! {

/// Cycles that a step asks for, unless the builder says otherwise.
pub const DEFAULT_STEP_QUANTUM: u32 = 64;

/// Pins of bank 0.
pub const GPIO_COUNT: u8 = 30;

#[derive(Clone, Copy, Debug, PartialEq, Eq, Structural)]
pub struct Config {
    /// Frequency of the oscillator that everything starts from.
    pub rosc_hz: u32,
}

impl Default for Config {
    fn default() -> (c: Config)
        ensures
            c == (Config { rosc_hz: ROSC_HZ }),
    {
        Config { rosc_hz: ROSC_HZ }
    }
}

#[derive(Clone, Copy, Debug, PartialEq, Eq, Structural)]
pub enum ConfigError {
    ThreadingUnavailable,
}

/// The master clock.
#[derive(Clone, Copy, Debug, PartialEq, Eq, Structural)]
pub struct Clock {
    pub cycles: u64,
}

pub struct Emulator {
    pub cores: [CortexM0Plus; 2],
    pub bus: Bus,
    pub clock: Clock,
    pub step_quantum: u32,
    pub config: Config,
    /// The furthest that the first PIO machine's program counter ever got.
    pub pio0_sm0_max_pc: u32,
    pub model: ExecutionModel,
    /// The worker that panicked, with its message.
    pub panic_info: Option<(WorkerName, String)>,
    /// The worker that did not reach the barrier, with the milliseconds
    /// waited.
    pub timeout_info: Option<(WorkerName, u64)>,
    /// The worker that is to panic in the next quantum.
    pub panic_inject: Option<WorkerName>,
}

/// The chip as the contracts speak of it.
pub struct EmulatorState {
    pub core0: CortexM0Plus,
    pub core1: CortexM0Plus,
    pub bus: BusState,
    pub clock: u64,
    pub quantum: u32,
    pub config: Config,
    pub max_pc: u32,
    pub crew: Crew,
}

impl View for Emulator {
    type V = EmulatorState;

    open spec fn view(&self) -> EmulatorState {
        EmulatorState {
            core0: self.cores[0],
            core1: self.cores[1],
            bus: self.bus@,
            clock: self.clock.cycles,
            quantum: self.step_quantum,
            config: self.config,
            max_pc: self.pio0_sm0_max_pc,
            crew: self.crew(),
        }
    }
}

/// The larger of two cycle counts.
pub open spec fn longer(a: u32, b: u32) -> u32 {
    if a >= b {
        a
    } else {
        b
    }
}

/// A core after it has caught up with what was written and loaded.
pub open spec fn refreshed(cpu: CortexM0Plus, bus: BusState) -> CortexM0Plus {
    let listed = cpu.without_listed(
        bus.pending_cache_invalidations,
        bus.pending_cache_invalidations.len(),
    );
    if bus.pending_invalidation_regions != 0 {
        listed.without_regions_upto(1024, bus.pending_invalidation_regions)
    } else {
        listed
    }
}

/// A bus whose writes and loads the cores have caught up with.
pub open spec fn settled(bus: BusState) -> BusState {
    BusState { pending_cache_invalidations: Seq::empty(), pending_invalidation_regions: 0, ..bus }
}

/// A core set up to start at a launch request.
pub open spec fn launched(cpu: CortexM0Plus, l: LaunchRequest) -> CortexM0Plus {
    CortexM0Plus {
        regs: (Registers { control: 0, psp: 0, primask: 0, xpsr: XPSR_T, msp: l.sp, ..cpu.regs }).with_reg(
            13,
            l.sp,
        ).with_reg(15, l.entry & 0xFFFF_FFFE),
        halted: false,
        ..cpu
    }
}

impl BusState {
    /// Core `n` waits for an event.
    pub open spec fn parked(self, n: int) -> bool {
        self.wfe_waiting[n]
    }

    /// Everything behind the bus `n` clocks later, at cycle `now`.
    #[verifier::opaque]
    pub open spec fn time_passed(self, n: u32, now: u64) -> BusState {
        let ticked = (BusState { master_cycle: now, ..self }).after_peripheral_ticks(n).after_pio_ticks(n);
        ticked.after_dma_ticks(n as nat).after_alarms(now).irqs_latched().pins_merged()
    }

    /// An interrupt waits for core `n`.
    pub open spec fn interrupted(self, n: int) -> bool {
        self.nvics[n].pending & self.nvics[n].enabled != 0
    }

    /// The wait of core `n` ended where an event or an interrupt ends it. The
    /// event is used up; an event that nobody waits for stays.
    pub open spec fn unparked(self, n: int) -> BusState {
        if self.wfe_waiting[n] && self.event_flag[n] {
            BusState {
                wfe_waiting: spec_array_update(self.wfe_waiting, n, false),
                event_flag: spec_array_update(self.event_flag, n, false),
                ..self
            }
        } else if self.wfe_waiting[n] && self.interrupted(n) {
            BusState { wfe_waiting: spec_array_update(self.wfe_waiting, n, false), ..self }
        } else {
            self
        }
    }
}

impl Bus {
    /// Moves everything behind the bus on by `n` clocks, to cycle `now`.
    fn pass_time(&mut self, n: u32, now: u64)
        ensures
            final(self)@ == old(self)@.time_passed(n, now),
    {
        reveal(BusState::time_passed);
        self.master_cycle = now;
        self.tick_peripherals(n);
        self.tick_pio(n);
        self.run_dma(n);
        self.advance_lazy_scheduled(now);
        self.latch_irqs();
        self.update_gpio();
    }

    /// Ends the wait of core `n` where something ends it.
    fn unpark(&mut self, n: usize)
        requires
            n < 2,
        ensures
            final(self)@ == old(self)@.unparked(n as int),
    {
        if self.wfe_waiting[n] && self.event_flag[n] {
            self.wfe_waiting[n] = false;
            self.event_flag[n] = false;
        } else if self.wfe_waiting[n] && self.nvics[n].pending_and_enabled() != 0 {
            self.wfe_waiting[n] = false;
        }
    }
}

/// A core with its halt ended where an interrupt waits for it.
pub open spec fn woken(cpu: CortexM0Plus, bus: BusState, n: int) -> CortexM0Plus {
    CortexM0Plus { halted: cpu.halted && !bus.interrupted(n), ..cpu }
}

/// The clocks that the peripherals see of a step: a count of 32 bits, which
/// only a step of more than 2^32 cycles wraps.
pub open spec fn ticks_in(cycles: u64) -> u32 {
    (cycles % 0x1_0000_0000) as u32
}

impl EmulatorState {
    /// The end of a pair of instructions that took the cores `c0` and `c1`
    /// cycles: each core's SysTick has counted the cycles of its own core, the
    /// caches catch up, and a launch that was asked for is carried out.
    pub open spec fn pair_finished(self, c0: u32, c1: u32) -> EmulatorState {
        let bus = self.bus.after_systick_ticks(0, c0 as nat).after_systick_ticks(1, c1 as nat);
        (EmulatorState {
            core0: refreshed(self.core0, bus),
            core1: refreshed(self.core1, bus),
            bus: BusState {
                master_cycle: ((bus.master_cycle + longer(c0, c1)) % 0x1_0000_0000_0000_0000) as u64,
                ..settled(bus)
            },
            ..self
        }).launch_taken()
    }

    /// What core 0 does in a pair of instructions.
    pub open spec fn first_ran(self) -> Effect {
        if self.bus.parked(0) {
            self.core0.took(self.bus, 0)
        } else {
            self.core0.stepped(self.bus)
        }
    }

    /// What core 1 does after it.
    pub open spec fn second_ran(self) -> Effect {
        let bus = self.first_ran().bus;
        if bus.parked(1) {
            self.core1.took(bus, 0)
        } else {
            self.core1.stepped(bus)
        }
    }

    /// One instruction of each core that is neither halted nor parked, core 0
    /// first. The pair takes as long as the longer of the two.
    #[verifier::opaque]
    pub open spec fn pair_stepped(self) -> (EmulatorState, u32) {
        let a = self.first_ran();
        let b = self.second_ran();
        let ran = EmulatorState { core0: a.cpu, core1: b.cpu, bus: b.bus, ..self };
        (ran.pair_finished(a.cycles, b.cycles), longer(a.cycles, b.cycles))
    }

    /// A launch that the handshake has asked for, carried out on core 1.
    pub open spec fn launch_taken(self) -> EmulatorState {
        match self.bus.sio.pending_launch {
            Some(l) => EmulatorState {
                core1: launched(self.core1, l),
                bus: BusState {
                    ppb: spec_array_update(self.bus.ppb, 1, Ppb { vtor: l.vtor, ..self.bus.ppb[1] }),
                    sio: (Sio { pending_launch: None, ..self.bus.sio }).with_armed(false),
                    wfe_waiting: spec_array_update(self.bus.wfe_waiting, 1, false),
                    ..self.bus
                },
                ..self
            },
            None => self,
        }
    }

    /// The cores run until `budget` cycles are spent or neither can run: the
    /// chip, and the cycles spent in all.
    pub open spec fn ran(self, spent: nat, budget: nat) -> (EmulatorState, nat)
        decreases
            if spent < budget {
                budget - spent
            } else {
                0
            },
    {
        if spent >= budget {
            (self, spent)
        } else {
            let (next, cycles) = self.pair_stepped();
            if cycles == 0 {
                (next, spent)
            } else {
                next.ran((spent + cycles) as nat, budget)
            }
        }
    }

    /// Both cores are stopped and nothing but an alarm can start them.
    pub open spec fn asleep(self) -> bool {
        &&& self.core0.halted || self.bus.parked(0)
        &&& self.core1.halted || self.bus.parked(1)
        &&& self.bus.irq_pending == 0
        &&& !self.bus.interrupted(0)
        &&& !self.bus.interrupted(1)
    }

    /// How far the clock skips ahead while the chip is asleep: to the next
    /// alarm, at most a quantum.
    pub open spec fn skip(self, budget: nat) -> nat {
        match self.bus.timer.next_fire() {
            Some(at) => if self.asleep() && at > self.bus.master_cycle {
                let gap = (at - self.bus.master_cycle) as nat;
                if gap < budget {
                    gap
                } else {
                    budget
                }
            } else {
                0
            },
            None => 0,
        }
    }

    /// Everything but the cores and their SysTicks moved on by `cycles`: the
    /// peripherals, the PIO blocks, the DMA controller, the alarms; then
    /// interrupts are latched, the pins brought up to date and waiting cores
    /// woken.
    #[verifier::opaque]
    pub open spec fn serviced(self, cycles: u64) -> EmulatorState {
        let now = ((self.clock + cycles) % 0x1_0000_0000_0000_0000) as u64;
        let moved = self.bus.time_passed(ticks_in(cycles), now);
        EmulatorState {
            core0: woken(refreshed(self.core0, moved), moved, 0),
            core1: woken(refreshed(self.core1, moved), moved, 1),
            bus: settled(moved).unparked(0).unparked(1),
            clock: now,
            max_pc: longer(self.max_pc, moved.pio[0].sms[0].pc),
            ..self
        }
    }

    /// The cycles that a step asks for.
    pub open spec fn budget(self) -> nat {
        self.quantum as nat
    }

    /// One step: a quantum of the cores, or a skip to the next alarm while
    /// both are stopped, and then everything else.
    pub open spec fn stepped(self) -> (EmulatorState, nat) {
        let start = EmulatorState {
            bus: BusState { master_cycle: self.clock, ..self.bus },
            ..self
        };
        let (ran, spent) = start.ran(0, self.budget());
        let cycles = if spent == 0 {
            ran.skip(self.budget())
        } else {
            spent
        };
        (ran.serviced(cycles as u64), cycles)
    }

    /// Steps until `goal` cycles have passed or a step passes none.
    pub open spec fn ran_for(self, spent: nat, goal: nat) -> (EmulatorState, nat)
        decreases
            if spent < goal {
                goal - spent
            } else {
                0
            },
    {
        if spent >= goal {
            (self, spent)
        } else {
            let (next, cycles) = self.stepped();
            if cycles == 0 {
                (next, spent)
            } else {
                next.ran_for((spent + cycles) as nat, goal)
            }
        }
    }

    /// A chip fresh from power-up: core 1 waits for the launch handshake.
    pub open spec fn at_reset(config: Config) -> EmulatorState {
        EmulatorState {
            core0: CortexM0Plus::at_reset(0),
            core1: CortexM0Plus { halted: true, ..CortexM0Plus::at_reset(1) },
            bus: BusState {
                rosc_hz: config.rosc_hz,
                clock_tree: ClockTree::all(config.rosc_hz),
                ..BusState::at_reset()
            },
            clock: 0,
            quantum: DEFAULT_STEP_QUANTUM,
            config,
            max_pc: 0,
            crew: Crew::fresh(ExecutionModel::Serial),
        }
    }
}

impl Emulator {
    pub fn new(config: Config) -> (emu: Emulator)
        ensures
            emu@ == EmulatorState::at_reset(config),
    {
        let mut bus = Bus::new();
        bus.seed_sys_clk_hz(config.rosc_hz);
        let mut core1 = CortexM0Plus::with_id(1);
        core1.halt();
        Emulator {
            cores: [CortexM0Plus::with_id(0), core1],
            bus,
            clock: Clock { cycles: 0 },
            step_quantum: DEFAULT_STEP_QUANTUM,
            config,
            pio0_sm0_max_pc: 0,
            model: ExecutionModel::Serial,
            panic_info: None,
            timeout_info: None,
            panic_inject: None,
        }
    }

    fn refresh_core(&mut self, n: usize)
        requires
            n < 2,
        ensures
            final(self)@ == (if n == 0 {
                EmulatorState { core0: refreshed(old(self)@.core0, old(self)@.bus), ..old(self)@ }
            } else {
                EmulatorState { core1: refreshed(old(self)@.core1, old(self)@.bus), ..old(self)@ }
            }),
    {
        self.cores[n].invalidate_decode_cache_entries(&self.bus.pending_cache_invalidations);
        if self.bus.pending_invalidation_regions != 0 {
            self.cores[n].invalidate_decode_cache_regions(self.bus.pending_invalidation_regions);
        }
    }

    /// Lets both decode caches catch up with what was written and loaded.
    pub(crate) fn settle(&mut self)
        ensures
            final(self)@ == (EmulatorState {
                core0: refreshed(old(self)@.core0, old(self)@.bus),
                core1: refreshed(old(self)@.core1, old(self)@.bus),
                bus: settled(old(self)@.bus),
                ..old(self)@
            }),
    {
        self.refresh_core(0);
        self.refresh_core(1);
        self.bus.pending_cache_invalidations.clear();
        self.bus.pending_invalidation_regions = 0;
        assert(self@.bus =~= settled(old(self)@.bus));
    }

    /// Carries out a launch that the handshake has asked for; nothing where
    /// there is none.
    pub fn maybe_wake_core1(&mut self, from: usize)
        ensures
            final(self)@ == old(self)@.launch_taken(),
    {
        match self.bus.sio.take_pending_launch() {
            Some(l) => {
                self.cores[1].reset_control_for_launch();
                self.cores[1].regs.msp = l.sp;
                self.cores[1].regs.r[13] = l.sp;
                self.cores[1].regs.r[15] = l.entry & 0xFFFF_FFFE;
                self.cores[1].halted = false;
                self.bus.ppb[1].vtor = l.vtor;
                self.bus.sio.set_handshake_armed(false);
                self.bus.wfe_waiting[1] = false;
            },
            None => {},
        }
    }

    fn step_core(&mut self, n: usize) -> (cycles: u32)
        requires
            n < 2,
        ensures
            ({
                let before = old(self)@;
                let cpu = if n == 0 {
                    before.core0
                } else {
                    before.core1
                };
                let e = if before.bus.parked(n as int) {
                    cpu.took(before.bus, 0)
                } else {
                    cpu.stepped(before.bus)
                };
                &&& cycles == e.cycles
                &&& final(self)@ == (if n == 0 {
                    EmulatorState { core0: e.cpu, bus: e.bus, ..before }
                } else {
                    EmulatorState { core1: e.cpu, bus: e.bus, ..before }
                })
            }),
            cycles <= MAX_CYCLES + ENTRY_CYCLES,
    {
        if self.bus.wfe_waiting[n] {
            0
        } else {
            self.cores[n].step(&mut self.bus)
        }
    }

    /// Ends a pair of instructions that took the cores `c0` and `c1` cycles.
    fn finish_pair(&mut self, c0: u32, c1: u32) -> (cycles: u32)
        ensures
            final(self)@ == old(self)@.pair_finished(c0, c1),
            cycles == longer(c0, c1),
    {
        let cycles: u32 = if c0 >= c1 {
            c0
        } else {
            c1
        };
        self.bus.tick_systick(0, c0);
        self.bus.tick_systick(1, c1);
        self.settle();
        self.bus.master_cycle = self.bus.master_cycle.wrapping_add(cycles as u64);
        self.maybe_wake_core1(0);
        cycles
    }

    fn step_pair(&mut self) -> (cycles: u32)
        ensures
            (final(self)@, cycles) == old(self)@.pair_stepped(),
            cycles <= MAX_CYCLES + ENTRY_CYCLES,
    {
        let a: u32 = self.step_core(0);
        let b: u32 = self.step_core(1);
        let cycles: u32 = self.finish_pair(a, b);
        reveal(EmulatorState::pair_stepped);
        cycles
    }

    fn run_cores(&mut self, budget: u32) -> (spent: u64)
        ensures
            final(self)@ == old(self)@.ran(0, budget as nat).0,
            spent == old(self)@.ran(0, budget as nat).1,
    {
        let ghost goal = self@.ran(0, budget as nat);
        let mut spent: u64 = 0;
        while spent < budget as u64
            invariant_except_break
                self@.ran(spent as nat, budget as nat) == goal,
            ensures
                (self@, spent as nat) == goal,
            decreases
                if spent < budget {
                    budget - spent
                } else {
                    0
                },
        {
            let cycles: u32 = self.step_pair();
            if cycles == 0 {
                break;
            }
            spent = spent + cycles as u64;
        }
        spent
    }

    fn is_asleep(&self) -> (out: bool)
        ensures
            out == self@.asleep(),
    {
        (self.cores[0].halted || self.bus.wfe_waiting[0]) && (self.cores[1].halted || self.bus.wfe_waiting[1])
            && self.bus.irq_pending == 0 && self.bus.nvics[0].pending_and_enabled() == 0
            && self.bus.nvics[1].pending_and_enabled() == 0
    }

    fn cycles_to_skip(&self, budget: u32) -> (out: u32)
        ensures
            out == self@.skip(budget as nat),
            out <= budget,
    {
        match self.bus.timer.next_armed_inte_fire_cycle() {
            Some(at) => {
                if self.is_asleep() && at > self.bus.master_cycle {
                    let gap: u64 = at - self.bus.master_cycle;
                    if gap < budget as u64 {
                        gap as u32
                    } else {
                        budget
                    }
                } else {
                    0
                }
            },
            None => 0,
        }
    }

    fn wake_core(&mut self, n: usize)
        requires
            n < 2,
        ensures
            final(self)@ == (if n == 0 {
                EmulatorState {
                    core0: woken(old(self)@.core0, old(self)@.bus, 0),
                    bus: old(self)@.bus.unparked(0),
                    ..old(self)@
                }
            } else {
                EmulatorState {
                    core1: woken(old(self)@.core1, old(self)@.bus, 1),
                    bus: old(self)@.bus.unparked(1),
                    ..old(self)@
                }
            }),
    {
        if self.bus.nvics[n].pending_and_enabled() != 0 {
            self.cores[n].halted = false;
        }
        self.bus.unpark(n);
    }

    /// Ends the waits of cores that something has come for.
    fn wake_checks(&mut self)
        ensures
            final(self)@ == (EmulatorState {
                core0: woken(old(self)@.core0, old(self)@.bus, 0),
                core1: woken(old(self)@.core1, old(self)@.bus, 1),
                bus: old(self)@.bus.unparked(0).unparked(1),
                ..old(self)@
            }),
    {
        self.wake_core(0);
        self.wake_core(1);
    }

    fn service(&mut self, cycles: u64)
        ensures
            final(self)@ == old(self)@.serviced(cycles),
    {
        reveal(EmulatorState::serviced);
        let now: u64 = self.clock.cycles.wrapping_add(cycles);
        let n: u32 = (cycles % 0x1_0000_0000) as u32;
        self.clock.cycles = now;
        self.bus.pass_time(n, now);
        if self.bus.pio[0].sms[0].pc > self.pio0_sm0_max_pc {
            self.pio0_sm0_max_pc = self.bus.pio[0].sms[0].pc;
        }
        self.settle();
        self.wake_checks();
    }

    /// Runs one quantum and returns the cycles that passed.
    pub(crate) fn advance(&mut self) -> (cycles: u64)
        ensures
            final(self)@ == old(self)@.stepped().0,
            cycles == old(self)@.stepped().1,
    {
        let budget: u32 = self.step_quantum;
        self.bus.master_cycle = self.clock.cycles;
        let spent: u64 = self.run_cores(budget);
        let cycles: u64 = if spent == 0 {
            self.cycles_to_skip(budget) as u64
        } else {
            spent
        };
        self.service(cycles);
        cycles
    }
}

} // verus!
