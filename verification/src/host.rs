//! What a host does with a chip: build it, load it, run it, look at it.
use vstd::array::spec_array_update;
use vstd::prelude::*;

use crate::bits::{add32, bit, test_bit, wadd};
use crate::bus::invalidation_regions::{ROM, SRAM, XIP};
use crate::bus::model::BusState;
use crate::bus::ppb::Ppb;
use crate::bus::sio::Sio;
use crate::bus::XIP_BASE;
use crate::cpu::registers::Registers;
use crate::cpu::CortexM0Plus;
use crate::emulator::{
    refreshed, settled, Config, ConfigError, Emulator, EmulatorState, DEFAULT_STEP_QUANTUM, GPIO_COUNT,
};
use crate::memory::{load_or_zero, overlaid, overlay, MemoryView, Width};
use crate::peripherals::uart::UartView;
use crate::workers::{Crew, ExecutionModel, MIN_WORKERS};

verus! {

/// `addr` modulo the size of its region.
pub open spec fn region_offset(addr: u32) -> int {
    addr as int % 0x100_0000
}

impl BusState {
    /// An image laid into the memory that its address names: boot ROM, flash
    /// or SRAM. Whatever does not fit is cut off; other addresses take
    /// nothing.
    pub open spec fn imaged(self, addr: u32, data: Seq<u8>) -> BusState {
        let at = region_offset(addr);
        let region = addr / 0x1000_0000;
        if region == 0 {
            BusState {
                memory: MemoryView { rom: overlaid(self.memory.rom, addr as int, data), ..self.memory },
                pending_invalidation_regions: self.pending_invalidation_regions | ROM,
                ..self
            }
        } else if region == 1 {
            BusState {
                memory: MemoryView { flash: overlaid(self.memory.flash, at, data), ..self.memory },
                pending_invalidation_regions: self.pending_invalidation_regions | XIP,
                ..self
            }
        } else if region == 2 {
            BusState {
                memory: MemoryView {
                    sram: overlaid(self.memory.sram, addr - 0x2000_0000, data),
                    ..self.memory
                },
                pending_invalidation_regions: self.pending_invalidation_regions | SRAM,
                ..self
            }
        } else {
            self
        }
    }
}

impl EmulatorState {
    /// Both decode caches caught up with the bus.
    pub open spec fn caught_up(self) -> EmulatorState {
        EmulatorState {
            core0: refreshed(self.core0, self.bus),
            core1: refreshed(self.core1, self.bus),
            bus: settled(self.bus),
            ..self
        }
    }

    /// A pin driven by the processor.
    pub open spec fn pin_driven(self, pin: u8, value: bool) -> EmulatorState {
        let mask = 1u32 << (pin as u32);
        let sio = Sio {
            gpio_oe: self.bus.sio.gpio_oe | mask,
            gpio_out: if value {
                self.bus.sio.gpio_out | mask
            } else {
                self.bus.sio.gpio_out & !mask
            },
            ..self.bus.sio
        };
        if pin < GPIO_COUNT {
            EmulatorState { bus: (BusState { sio, ..self.bus }).pins_merged(), ..self }
        } else {
            self
        }
    }

    pub open spec fn core1_halted(self) -> EmulatorState {
        EmulatorState {
            core1: CortexM0Plus { halted: true, pending_fault: None, ..self.core1 },
            bus: BusState { sio: self.bus.sio.with_armed(true), ..self.bus },
            ..self
        }
    }

    /// Both cores pointed at the vector table at `offset` in flash.
    pub open spec fn booted(self, offset: u32) -> EmulatorState {
        let sp = load_or_zero(self.bus.memory.flash, offset as int, Width::Word);
        let entry = load_or_zero(self.bus.memory.flash, wadd(offset, 4) as int, Width::Word);
        let vtor = wadd(XIP_BASE, offset);
        (EmulatorState {
            core0: aimed(self.core0, sp, entry),
            core1: aimed(self.core1, sp, entry),
            bus: BusState {
                ppb: spec_array_update(
                    spec_array_update(self.bus.ppb, 0, Ppb { vtor, ..self.bus.ppb[0] }),
                    1,
                    Ppb { vtor, ..self.bus.ppb[1] },
                ),
                ..self.bus
            },
            ..self
        }).core1_halted()
    }

    /// Power-up again: everything but the memories, the configuration and
    /// what is on record of the workers.
    pub open spec fn restarted(self) -> EmulatorState {
        let fresh = EmulatorState::at_reset(self.config);
        EmulatorState {
            bus: BusState { memory: self.bus.memory, ..fresh.bus },
            quantum: self.quantum,
            crew: self.crew,
            ..fresh
        }
    }
}

/// A cycle count cut off at the largest that a word holds.
pub open spec fn saturated(n: nat) -> u64 {
    if n <= u64::MAX {
        n as u64
    } else {
        u64::MAX
    }
}

/// A core pointed at a stack and an entry point.
pub open spec fn aimed(cpu: CortexM0Plus, sp: u32, entry: u32) -> CortexM0Plus {
    cpu.with_regs(
        (Registers { msp: sp, ..cpu.regs }).with_reg(13, sp).with_reg(15, entry & 0xFFFF_FFFE),
    )
}

impl Emulator {
    pub fn cycles(&self) -> (out: u64)
        ensures
            out == self@.clock,
    {
        self.clock.cycles
    }

    /// Runs until at least `goal` cycles have passed, or until a quantum
    /// passes none, and returns how many did.
    pub(crate) fn run_for(&mut self, goal: u64) -> (spent: u64)
        ensures
            final(self)@ == old(self)@.ran_for(0, goal as nat).0,
            spent == saturated(old(self)@.ran_for(0, goal as nat).1),
    {
        let ghost target = self@.ran_for(0, goal as nat);
        let mut spent: u64 = 0;
        let ghost mut exact: nat = 0;
        while spent < goal
            invariant_except_break
                self@.ran_for(exact, goal as nat) == target,
            invariant
                spent == saturated(exact),
            ensures
                (self@, exact) == target,
            decreases
                if spent < goal {
                    goal - spent
                } else {
                    0
                },
        {
            let cycles: u64 = self.advance();
            if cycles == 0 {
                break;
            }
            proof {
                exact = exact + cycles as nat;
            }
            spent = spent.saturating_add(cycles);
        }
        spent
    }

    pub fn reset(&mut self)
        ensures
            final(self)@ == old(self)@.restarted(),
    {
        let mut fresh = Emulator::new(self.config);
        std::mem::swap(&mut fresh.bus.memory, &mut self.bus.memory);
        std::mem::swap(&mut fresh.panic_info, &mut self.panic_info);
        fresh.model = self.model;
        fresh.timeout_info = self.timeout_info;
        fresh.panic_inject = self.panic_inject;
        fresh.step_quantum = self.step_quantum;
        *self = fresh;
    }

    /// Brings the pin inputs up to date.
    pub fn update_gpio(&mut self)
        ensures
            final(self)@ == (EmulatorState { bus: old(self)@.bus.pins_merged(), ..old(self)@ }),
    {
        self.bus.update_gpio();
    }

    /// The level of a pin; pins that do not exist are low.
    pub fn gpio_read(&self, pin: u8) -> (out: bool)
        ensures
            out == (pin < GPIO_COUNT && bit(self@.bus.gpio_in, pin as int)),
    {
        pin < GPIO_COUNT && test_bit(self.bus.gpio_in, pin as u32)
    }

    pub fn gpio_read_all(&self) -> (out: u32)
        ensures
            out == self@.bus.gpio_in,
    {
        self.bus.gpio_in
    }

    /// Drives a pin from the processor; pins that do not exist take nothing.
    pub fn gpio_write(&mut self, pin: u8, value: bool)
        ensures
            final(self)@ == old(self)@.pin_driven(pin, value),
    {
        if pin >= GPIO_COUNT {
            return ;
        }
        let mask: u32 = 1u32 << (pin as u32);
        self.bus.sio.gpio_oe = self.bus.sio.gpio_oe | mask;
        self.bus.sio.gpio_out = if value {
            self.bus.sio.gpio_out | mask
        } else {
            self.bus.sio.gpio_out & !mask
        };
        self.bus.update_gpio();
    }

    /// Stops core 1 and arms the launch handshake for it.
    pub fn halt_core1(&mut self)
        ensures
            final(self)@ == old(self)@.core1_halted(),
    {
        self.cores[1].halt();
        self.bus.sio.set_handshake_armed(true);
    }

    /// Starts core 1 where it stands and disarms the handshake.
    pub fn wake_core1(&mut self)
        ensures
            final(self)@ == (EmulatorState {
                core1: CortexM0Plus { halted: false, ..old(self)@.core1 },
                bus: BusState { sio: old(self)@.bus.sio.with_armed(false), ..old(self)@.bus },
                ..old(self)@
            }),
    {
        self.cores[1].wake();
        self.bus.sio.set_handshake_armed(false);
    }

    /// Lays an image into memory.
    pub fn load_image(&mut self, addr: u32, data: &[u8])
        ensures
            final(self)@ == (EmulatorState {
                bus: old(self)@.bus.imaged(addr, data@),
                ..old(self)@
            }).caught_up(),
    {
        match addr / 0x1000_0000 {
            0 => {
                overlay(&mut self.bus.memory.rom, addr as usize, data);
                self.bus.pending_invalidation_regions = self.bus.pending_invalidation_regions | ROM;
            },
            1 => {
                overlay(&mut self.bus.memory.flash, (addr % 0x100_0000) as usize, data);
                self.bus.pending_invalidation_regions = self.bus.pending_invalidation_regions | XIP;
            },
            2 => {
                overlay(&mut self.bus.memory.sram, (addr - 0x2000_0000) as usize, data);
                self.bus.pending_invalidation_regions = self.bus.pending_invalidation_regions | SRAM;
            },
            _ => {},
        }
        self.settle();
    }

    pub fn load_flash(&mut self, data: &[u8])
        ensures
            final(self)@ == (EmulatorState {
                bus: BusState {
                    memory: MemoryView {
                        flash: overlaid(old(self)@.bus.memory.flash, 0, data@),
                        ..old(self)@.bus.memory
                    },
                    pending_invalidation_regions: old(self)@.bus.pending_invalidation_regions | XIP,
                    ..old(self)@.bus
                },
                ..old(self)@
            }).caught_up(),
    {
        self.bus.load_flash(data);
        self.settle();
    }

    pub fn load_bootrom(&mut self, data: &[u8])
        ensures
            final(self)@ == (EmulatorState {
                bus: BusState {
                    memory: MemoryView {
                        rom: overlaid(old(self)@.bus.memory.rom, 0, data@),
                        ..old(self)@.bus.memory
                    },
                    pending_invalidation_regions: old(self)@.bus.pending_invalidation_regions | ROM,
                    ..old(self)@.bus
                },
                ..old(self)@
            }).caught_up(),
    {
        self.bus.load_bootrom(data);
        self.settle();
    }

    /// Points both cores at the vector table at `offset` in flash, as the
    /// boot code would leave them, with core 1 waiting.
    pub fn direct_boot_from_flash(&mut self, offset: u32)
        ensures
            final(self)@ == old(self)@.booted(offset),
    {
        let sp: u32 = self.bus.memory.xip_read32(offset);
        let entry: u32 = self.bus.memory.xip_read32(add32(offset, 4));
        self.cores[0].regs.msp = sp;
        self.cores[0].regs.r[13] = sp;
        self.cores[0].regs.r[15] = entry & 0xFFFF_FFFE;
        self.cores[1].regs.msp = sp;
        self.cores[1].regs.r[13] = sp;
        self.cores[1].regs.r[15] = entry & 0xFFFF_FFFE;
        self.bus.ppb[0].vtor = add32(XIP_BASE, offset);
        self.bus.ppb[1].vtor = add32(XIP_BASE, offset);
        self.halt_core1();
    }

    /// Reads a register as the bus would at this moment.
    pub fn mmio_read32(&mut self, addr: u32) -> (out: u32)
        ensures
            out == (BusState { master_cycle: old(self)@.clock, ..old(self)@.bus }).value_at(addr, Width::Word),
            final(self)@ == (EmulatorState {
                bus: (BusState { master_cycle: old(self)@.clock, ..old(self)@.bus }).after_read(
                    addr,
                    Width::Word,
                ),
                ..old(self)@
            }),
    {
        self.bus.master_cycle = self.clock.cycles;
        self.bus.read32(addr)
    }

    /// Writes a register as the bus would at this moment.
    pub fn mmio_write32(&mut self, addr: u32, val: u32)
        ensures
            final(self)@ == (EmulatorState {
                bus: (BusState { master_cycle: old(self)@.clock, ..old(self)@.bus }).after_write(
                    addr,
                    Width::Word,
                    val,
                ),
                ..old(self)@
            }),
    {
        self.bus.master_cycle = self.clock.cycles;
        self.bus.write32(addr, val);
    }

    pub fn peek(&self, addr: u32) -> (out: u32)
        ensures
            out == self@.bus.peeked(addr),
    {
        self.bus.peek32(addr)
    }

    pub fn poke(&mut self, addr: u32, val: u32)
        ensures
            final(self)@ == (EmulatorState { bus: old(self)@.bus.poked(addr, val), ..old(self)@ }).caught_up(),
    {
        self.bus.poke32(addr, val);
        self.settle();
    }

    pub fn drain_uart0_tx_log(&mut self) -> (log: Vec<u8>)
        ensures
            log@ == old(self)@.bus.uart0.tx_log,
            final(self)@ == (EmulatorState {
                bus: BusState {
                    uart0: UartView { tx_log: Seq::empty(), ..old(self)@.bus.uart0 },
                    ..old(self)@.bus
                },
                ..old(self)@
            }),
    {
        self.bus.drain_uart0_tx_log()
    }
}

/// Settings of a chip to be built.
pub struct EmulatorBuilder {
    pub config: Config,
    pub quantum: u32,
    pub model: ExecutionModel,
    /// Workers that the host can run side by side.
    pub host_workers: usize,
    pub image: Option<Vec<u8>>,
}

impl EmulatorBuilder {
    pub fn new(config: Config) -> (b: EmulatorBuilder)
        ensures
            b == (EmulatorBuilder {
                config,
                quantum: DEFAULT_STEP_QUANTUM,
                model: ExecutionModel::Serial,
                host_workers: MIN_WORKERS,
                image: None,
            }),
    {
        EmulatorBuilder {
            config,
            quantum: DEFAULT_STEP_QUANTUM,
            model: ExecutionModel::Serial,
            host_workers: MIN_WORKERS,
            image: None,
        }
    }

    /// How many workers the host can run side by side: none where it has no
    /// threads to offer. Unless it says so, it is taken to have enough.
    pub fn workers(self, n: usize) -> (b: EmulatorBuilder)
        ensures
            b == (EmulatorBuilder { host_workers: n, ..self }),
    {
        EmulatorBuilder { host_workers: n, ..self }
    }

    /// Cycles per step; zero counts as one.
    pub fn step_quantum(self, n: u32) -> (b: EmulatorBuilder)
        ensures
            b == (EmulatorBuilder {
                quantum: if n == 0 {
                    1
                } else {
                    n
                },
                ..self
            }),
    {
        EmulatorBuilder {
            quantum: if n == 0 {
                1
            } else {
                n
            },
            ..self
        }
    }

    pub fn execution(self, model: ExecutionModel) -> (b: EmulatorBuilder)
        ensures
            b == (EmulatorBuilder { model, ..self }),
    {
        EmulatorBuilder { model, ..self }
    }

    /// A flash image to load.
    pub fn flash(self, data: Vec<u8>) -> (b: EmulatorBuilder)
        ensures
            b == (EmulatorBuilder { image: Some(data), ..self }),
    {
        EmulatorBuilder { image: Some(data), ..self }
    }

    /// The chip that these settings make.
    pub open spec fn built(self) -> EmulatorState {
        let bare = EmulatorState {
            quantum: self.quantum,
            crew: Crew::fresh(self.model),
            ..EmulatorState::at_reset(self.config)
        };
        match self.image {
            Some(data) => (EmulatorState {
                bus: BusState {
                    memory: MemoryView {
                        flash: overlaid(bare.bus.memory.flash, 0, data@),
                        ..bare.bus.memory
                    },
                    pending_invalidation_regions: bare.bus.pending_invalidation_regions | XIP,
                    ..bare.bus
                },
                ..bare
            }).caught_up(),
            None => bare,
        }
    }

    /// These settings ask for workers that the host does not have.
    pub open spec fn lacks_workers(self) -> bool {
        self.model == ExecutionModel::Threaded && self.host_workers < MIN_WORKERS
    }

    /// Builds the chip. The threaded model takes a host with enough workers.
    pub fn build(self) -> (out: Result<Emulator, ConfigError>)
        ensures
            self.lacks_workers() ==> out == Err::<Emulator, ConfigError>(ConfigError::ThreadingUnavailable),
            !self.lacks_workers() ==> (out matches Ok(emu) && emu@ == self.built()),
    {
        if matches!(self.model, ExecutionModel::Threaded) && self.host_workers < MIN_WORKERS {
            return Err(ConfigError::ThreadingUnavailable);
        }
        let mut emu = Emulator::new(self.config);
        emu.step_quantum = self.quantum;
        emu.model = self.model;
        match &self.image {
            Some(data) => {
                emu.load_flash(data.as_slice());
            },
            None => {},
        }
        Ok(emu)
    }
}

} // verus!
