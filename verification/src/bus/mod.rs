//! The system bus: one address space over every memory and register, with the
//! state that the cores share.
use vstd::prelude::*;

use crate::bits::{apply_alias, lemma_address_facts, lemma_word_facts};
use crate::bus::model::{divided, pll_hz, BusState};
use crate::bus::peripheral_dispatch::{is_held_in_reset, RESET_MASK};
use crate::bus::ppb::Ppb;
use crate::bus::sio::Sio;
use crate::clocks::{ClockTree, Pll, ROSC_HZ};
use crate::cpu::nvic::Nvic;
use crate::cpu::systick::SysTick;
use crate::dma::Dma;
use crate::irq::{
    IRQ_ADC_IRQ_FIFO, IRQ_I2C0_IRQ, IRQ_I2C1_IRQ, IRQ_PWM_IRQ_WRAP, IRQ_SPI0_IRQ, IRQ_SPI1_IRQ, IRQ_UART0_IRQ,
    IRQ_UART1_IRQ,
};
use crate::memory::{Memory, Width};
use crate::peripherals::adc::AdcRegs;
use crate::peripherals::i2c::I2cRegs;
use crate::peripherals::pwm::PwmRegs;
use crate::peripherals::spi::SpiRegs;
use crate::peripherals::timer::TimerRegs;
use crate::peripherals::uart::UartRegs;
use crate::peripherals::watchdog_tick::WatchdogTickRegs;
use crate::pio::Pio;

pub mod access;
pub mod clock_laws;
pub mod invalidation_regions;
pub mod lane_laws;
pub mod laws;
pub mod line_laws;
pub mod map_laws;
pub mod model;
pub mod peripheral_dispatch;
pub mod ppb;
pub mod service;
pub mod service_laws;
pub mod sio;
pub mod sio_laws;
pub mod trace;

verus! {

pub const XIP_BASE: u32 = 0x1000_0000;
pub const XIP_CTRL_BASE: u32 = 0x1400_0000;
pub const XIP_SRAM_BASE: u32 = 0x1500_0000;
pub const SSI_BASE: u32 = 0x1800_0000;
pub const SYSINFO_BASE: u32 = 0x4000_0000;
pub const CLOCKS_BASE: u32 = 0x4000_8000;
pub const RESETS_BASE: u32 = 0x4000_C000;
pub const PLL_SYS_BASE: u32 = 0x4002_8000;
pub const PLL_USB_BASE: u32 = 0x4002_C000;
pub const UART0_BASE: u32 = 0x4003_4000;
pub const UART1_BASE: u32 = 0x4003_8000;
pub const SPI0_BASE: u32 = 0x4003_C000;
pub const SPI1_BASE: u32 = 0x4004_0000;
pub const I2C0_BASE: u32 = 0x4004_4000;
pub const I2C1_BASE: u32 = 0x4004_8000;
pub const ADC_BASE: u32 = 0x4004_C000;
pub const PWM_BASE: u32 = 0x4005_0000;
pub const TIMER_BASE: u32 = 0x4005_4000;
pub const WATCHDOG_BASE: u32 = 0x4005_8000;
pub const DMA_BASE: u32 = 0x5000_0000;
pub const PIO0_BASE: u32 = 0x5020_0000;
pub const PIO1_BASE: u32 = 0x5030_0000;
pub const SIO_BASE: u32 = 0xD000_0000;

/// Frequency of the crystal.
pub const XOSC_HZ: u32 = 12_000_000;

/// Words in the store behind the APB blocks that have no model of their own.
pub const APB_STORE_WORDS: usize = 32768;

/// One access on record.
#[derive(Clone, Copy, Debug, PartialEq, Eq, Structural)]
pub struct TraceEntry {
    pub write: bool,
    pub width: Width,
    pub addr: u32,
    pub value: u32,
}

pub struct Bus {
    pub memory: Memory,
    pub ppb: [Ppb; 2],
    pub nvics: [Nvic; 2],
    pub systicks: [SysTick; 2],
    pub sio: Sio,
    pub dma: Dma,
    pub pio: [Pio; 2],
    pub uart0: UartRegs,
    pub uart1: UartRegs,
    pub spi0: SpiRegs,
    pub spi1: SpiRegs,
    pub i2c0: I2cRegs,
    pub i2c1: I2cRegs,
    pub adc: AdcRegs,
    pub pwm: PwmRegs,
    pub timer: TimerRegs,
    pub watchdog_tick: WatchdogTickRegs,
    /// One bit for each peripheral that is held in reset.
    pub resets: u32,
    pub pll_sys: Pll,
    pub pll_usb: Pll,
    pub pll_sys_lock_at_cycle: Option<u64>,
    pub pll_usb_lock_at_cycle: Option<u64>,
    pub rosc_hz: u32,
    pub clock_tree: ClockTree,
    pub apb: Vec<u32>,
    pub xip_ctrl: [u32; 64],
    pub ssi: [u32; 64],
    /// Interrupt lines raised and not yet latched by the cores.
    pub irq_pending: u32,
    pub master_cycle: u64,
    pub fault: bool,
    pub fault_addr: u32,
    pub gpio_in: u32,
    pub external_gpio_in_mask: u32,
    pub external_gpio_in_override: u32,
    pub event_flag: [bool; 2],
    pub wfe_waiting: [bool; 2],
    pub active_core: usize,
    /// Halfword addresses written since the decode caches last looked.
    pub pending_cache_invalidations: Vec<u32>,
    pub pending_invalidation_regions: u32,
    pub mmio_trace_enabled: bool,
    pub mmio_trace: Vec<TraceEntry>,
    pub last_access_cycles: u32,
}

impl View for Bus {
    type V = BusState;

    open spec fn view(&self) -> BusState {
        BusState {
            memory: self.memory@,
            ppb: self.ppb,
            nvics: self.nvics,
            systicks: self.systicks,
            sio: self.sio,
            dma: self.dma,
            pio: self.pio,
            uart0: self.uart0@,
            uart1: self.uart1@,
            spi0: self.spi0,
            spi1: self.spi1,
            i2c0: self.i2c0,
            i2c1: self.i2c1,
            adc: self.adc,
            pwm: self.pwm,
            timer: self.timer,
            watchdog_tick: self.watchdog_tick,
            resets: self.resets,
            pll_sys: self.pll_sys,
            pll_usb: self.pll_usb,
            pll_sys_lock_at_cycle: self.pll_sys_lock_at_cycle,
            pll_usb_lock_at_cycle: self.pll_usb_lock_at_cycle,
            rosc_hz: self.rosc_hz,
            clock_tree: self.clock_tree,
            apb: self.apb@,
            xip_ctrl: self.xip_ctrl,
            ssi: self.ssi,
            irq_pending: self.irq_pending,
            master_cycle: self.master_cycle,
            fault: self.fault,
            fault_addr: self.fault_addr,
            gpio_in: self.gpio_in,
            external_gpio_in_mask: self.external_gpio_in_mask,
            external_gpio_in_override: self.external_gpio_in_override,
            event_flag: self.event_flag,
            wfe_waiting: self.wfe_waiting,
            active_core: self.active_core,
            pending_cache_invalidations: self.pending_cache_invalidations@,
            pending_invalidation_regions: self.pending_invalidation_regions,
            mmio_trace_enabled: self.mmio_trace_enabled,
            mmio_trace: self.mmio_trace@,
            last_access_cycles: self.last_access_cycles,
        }
    }
}

impl Bus {
    pub fn new() -> (bus: Bus)
        ensures
            bus@ == BusState::at_reset(),
    {
        Bus {
            memory: Memory::new(),
            ppb: [Ppb::new();2],
            nvics: [Nvic::new();2],
            systicks: [SysTick::new();2],
            sio: Sio::new(),
            dma: Dma::new(),
            pio: [Pio::new();2],
            uart0: UartRegs::new(IRQ_UART0_IRQ),
            uart1: UartRegs::new(IRQ_UART1_IRQ),
            spi0: SpiRegs::new(IRQ_SPI0_IRQ),
            spi1: SpiRegs::new(IRQ_SPI1_IRQ),
            i2c0: I2cRegs::new(IRQ_I2C0_IRQ),
            i2c1: I2cRegs::new(IRQ_I2C1_IRQ),
            adc: AdcRegs::new(IRQ_ADC_IRQ_FIFO),
            pwm: PwmRegs::new(IRQ_PWM_IRQ_WRAP),
            timer: TimerRegs::new(),
            watchdog_tick: WatchdogTickRegs::new(),
            resets: RESET_MASK,
            pll_sys: Pll::new(),
            pll_usb: Pll::new(),
            pll_sys_lock_at_cycle: None,
            pll_usb_lock_at_cycle: None,
            rosc_hz: ROSC_HZ,
            clock_tree: ClockTree { sys_clk_hz: ROSC_HZ, ref_clk_hz: ROSC_HZ, peri_clk_hz: ROSC_HZ },
            apb: vec![0u32; APB_STORE_WORDS],
            xip_ctrl: [0;64],
            ssi: [0;64],
            irq_pending: 0,
            master_cycle: 0,
            fault: false,
            fault_addr: 0,
            gpio_in: 0,
            external_gpio_in_mask: 0,
            external_gpio_in_override: 0,
            event_flag: [false;2],
            wfe_waiting: [false;2],
            active_core: 0,
            pending_cache_invalidations: Vec::new(),
            pending_invalidation_regions: 0,
            mmio_trace_enabled: false,
            mmio_trace: Vec::new(),
            last_access_cycles: 1,
        }
    }

    pub fn active_index(&self) -> (n: usize)
        ensures
            n == self@.active(),
            n < 2,
    {
        if self.active_core == 0 {
            0
        } else {
            1
        }
    }

    pub(crate) fn set_bus_fault(&mut self, addr: u32)
        ensures
            final(self)@ == old(self)@.faulted(addr),
    {
        self.fault = true;
        self.fault_addr = addr;
    }

    fn read_store(&self, base: u32, offset: u32) -> (out: u32)
        requires
            base >= 0x4000_0000,
        ensures
            out == self@.stored(base, offset),
    {
        let i: usize = (base - 0x4000_0000) as usize / 0x4000 * 1024 + offset as usize / 4;
        if i < self.apb.len() {
            self.apb[i]
        } else {
            0
        }
    }

    fn loop_hz(p: &Pll) -> (out: u64)
        ensures
            out == pll_hz(*p),
            out <= 12_000_000 * 4095,
    {
        if p.pwr & 0x01 != 0 || p.pwr & 0x20 != 0 || p.fbdiv == 0 {
            return 0;
        }
        proof {
            lemma_pll_fields(p.cs, p.fbdiv, p.prim);
        }
        let cs: u32 = p.cs & 0x3F;
        let p1: u32 = (p.prim >> 16) & 0x7;
        let p2: u32 = (p.prim >> 12) & 0x7;
        let refdiv: u64 = if cs == 0 {
            1
        } else {
            cs as u64
        };
        let pd1: u64 = if p1 == 0 {
            1
        } else {
            p1 as u64
        };
        let pd2: u64 = if p2 == 0 {
            1
        } else {
            p2 as u64
        };
        let fb: u64 = (p.fbdiv & 0xFFF) as u64;
        let input: u64 = XOSC_HZ as u64 / refdiv;
        assert(input <= 12_000_000) by (nonlinear_arith)
            requires
                input == 12_000_000int / refdiv as int,
                refdiv >= 1,
        ;
        assert(input * fb <= 12_000_000 * 4095) by (nonlinear_arith)
            requires
                input <= 12_000_000,
                fb <= 4095,
        ;
        assert(1 <= pd1 * pd2 <= 49) by (nonlinear_arith)
            requires
                1 <= pd1 <= 7,
                1 <= pd2 <= 7,
        ;
        let out: u64 = input * fb / (pd1 * pd2);
        assert(out <= input * fb) by (nonlinear_arith)
            requires
                out == (input * fb) as int / (pd1 * pd2) as int,
                pd1 * pd2 >= 1,
                input * fb >= 0,
        ;
        out
    }

    fn divide_clock(hz: u64, div: u32) -> (out: u32)
        ensures
            out == divided(hz as int, div),
    {
        let q: u64 = if div == 0 {
            hz
        } else {
            hz / div as u64
        };
        if q > 0xFFFF_FFFF {
            0xFFFF_FFFF
        } else {
            q as u32
        }
    }

    pub(crate) fn update_clocks(&mut self)
        ensures
            final(self)@ == old(self)@.reclocked(),
    {
        let pll_sys: u64 = Bus::loop_hz(&self.pll_sys);
        let pll_usb: u64 = Bus::loop_hz(&self.pll_usb);
        let rosc: u64 = self.rosc_hz as u64;
        let ref_src: u32 = self.read_store(CLOCKS_BASE, 0x30) & 0x3;
        let ref_in: u64 = match ref_src {
            0 => rosc,
            2 => XOSC_HZ as u64,
            _ => pll_usb,
        };
        let ref_hz: u32 = Bus::divide_clock(ref_in, (self.read_store(CLOCKS_BASE, 0x34) >> 8) & 0x3);
        let sys_ctrl: u32 = self.read_store(CLOCKS_BASE, 0x3C);
        let sys_in: u64 = if sys_ctrl & 0x1 == 0 {
            ref_hz as u64
        } else {
            match (sys_ctrl >> 5) & 0x7 {
                0 => pll_sys,
                1 => pll_usb,
                2 => rosc,
                _ => XOSC_HZ as u64,
            }
        };
        let sys_hz: u32 = Bus::divide_clock(sys_in, self.read_store(CLOCKS_BASE, 0x40) >> 8);
        let peri_in: u64 = match (self.read_store(CLOCKS_BASE, 0x48) >> 5) & 0x7 {
            1 => pll_sys,
            2 => pll_usb,
            3 => rosc,
            4 => XOSC_HZ as u64,
            _ => sys_hz as u64,
        };
        let peri_hz: u32 = Bus::divide_clock(peri_in, 0);
        self.clock_tree = ClockTree { sys_clk_hz: sys_hz, ref_clk_hz: ref_hz, peri_clk_hz: peri_hz };
    }

    pub(crate) fn apb_read(&mut self, addr: u32) -> (out: u32)
        requires
            addr >> 28 == 4,
        ensures
            out == old(self)@.apb_word(addr),
            final(self)@ == old(self)@.after_apb_read(addr),
    {
        let base: u32 = addr & 0xFFFF_C000;
        let offset: u32 = addr & 0xFFF;
        if is_held_in_reset(self, base) {
            return 0;
        }
        match base {
            SYSINFO_BASE => if offset == 0 {
                1
            } else {
                0
            },
            RESETS_BASE => if offset == 0 {
                self.resets
            } else if offset == 8 {
                !self.resets & RESET_MASK
            } else {
                0
            },
            PLL_SYS_BASE => self.pll_sys.read32(self.pll_sys_lock_at_cycle, offset, self.master_cycle),
            PLL_USB_BASE => self.pll_usb.read32(self.pll_usb_lock_at_cycle, offset, self.master_cycle),
            UART0_BASE => self.uart0.read32(offset),
            UART1_BASE => self.uart1.read32(offset),
            SPI0_BASE => self.spi0.read32(offset),
            SPI1_BASE => self.spi1.read32(offset),
            I2C0_BASE => self.i2c0.read32(offset),
            I2C1_BASE => self.i2c1.read32(offset),
            ADC_BASE => self.adc.read32(offset),
            PWM_BASE => self.pwm.read32(offset),
            TIMER_BASE => self.timer.read32(offset, self.master_cycle, self.clock_tree.sys_clk_hz),
            WATCHDOG_BASE => self.watchdog_tick.read32(offset),
            _ => {
                proof {
                    lemma_apb_base(addr);
                }
                self.read_store(base, offset)
            },
        }
    }

    /// The register word at an APB address, without the effects of a read.
    pub(crate) fn apb_peek(&self, addr: u32) -> (out: u32)
        requires
            addr >> 28 == 4,
        ensures
            out == self@.apb_word(addr),
    {
        let base: u32 = addr & 0xFFFF_C000;
        let offset: u32 = addr & 0xFFF;
        if is_held_in_reset(self, base) {
            return 0;
        }
        match base {
            SYSINFO_BASE => if offset == 0 {
                1
            } else {
                0
            },
            RESETS_BASE => if offset == 0 {
                self.resets
            } else if offset == 8 {
                !self.resets & RESET_MASK
            } else {
                0
            },
            PLL_SYS_BASE => self.pll_sys.read32(self.pll_sys_lock_at_cycle, offset, self.master_cycle),
            PLL_USB_BASE => self.pll_usb.read32(self.pll_usb_lock_at_cycle, offset, self.master_cycle),
            UART0_BASE => self.uart0.read32(offset),
            UART1_BASE => self.uart1.read32(offset),
            SPI0_BASE => {
                let mut copy = self.spi0;
                copy.read32(offset)
            },
            SPI1_BASE => {
                let mut copy = self.spi1;
                copy.read32(offset)
            },
            I2C0_BASE => {
                let mut copy = self.i2c0;
                copy.read32(offset)
            },
            I2C1_BASE => {
                let mut copy = self.i2c1;
                copy.read32(offset)
            },
            ADC_BASE => {
                let mut copy = self.adc;
                copy.read32(offset)
            },
            PWM_BASE => self.pwm.read32(offset),
            TIMER_BASE => {
                let mut copy = self.timer;
                copy.read32(offset, self.master_cycle, self.clock_tree.sys_clk_hz)
            },
            WATCHDOG_BASE => self.watchdog_tick.read32(offset),
            _ => {
                proof {
                    lemma_apb_base(addr);
                }
                self.read_store(base, offset)
            },
        }
    }

    fn write_store(&mut self, base: u32, offset: u32, val: u32, alias: u32)
        requires
            base >= 0x4000_0000,
        ensures
            final(self)@ == old(self)@.after_store(base, offset, val, alias),
    {
        let i: usize = (base - 0x4000_0000) as usize / 0x4000 * 1024 + offset as usize / 4;
        if offset % 4 == 0 && i < self.apb.len() {
            let word: u32 = apply_alias(self.apb[i], val, alias);
            self.apb[i] = word;
            if base == CLOCKS_BASE && (offset == 0x30 || offset == 0x34 || offset == 0x3C || offset == 0x40
                || offset == 0x48) {
                self.update_clocks();
            }
        }
    }

    pub(crate) fn apb_write(&mut self, addr: u32, val: u32)
        requires
            addr >> 28 == 4,
        ensures
            final(self)@ == old(self)@.after_apb_write(addr, val),
    {
        reveal(BusState::after_apb_write);
        let base: u32 = addr & 0xFFFF_C000;
        let offset: u32 = addr & 0xFFF;
        let alias: u32 = (addr >> 12) & 0x3;
        if is_held_in_reset(self, base) {
            return ;
        }
        match base {
            SYSINFO_BASE => {},
            RESETS_BASE => {
                if offset == 0 {
                    self.resets = apply_alias(self.resets, val, alias) & RESET_MASK;
                }
            },
            PLL_SYS_BASE => {
                if offset == 0x0 || offset == 0x4 || offset == 0x8 || offset == 0xC {
                    self.pll_sys_lock_at_cycle = self.pll_sys.write32(
                        self.pll_sys_lock_at_cycle,
                        offset,
                        val,
                        alias,
                        self.master_cycle,
                    );
                    self.update_clocks();
                }
            },
            PLL_USB_BASE => {
                if offset == 0x0 || offset == 0x4 || offset == 0x8 || offset == 0xC {
                    self.pll_usb_lock_at_cycle = self.pll_usb.write32(
                        self.pll_usb_lock_at_cycle,
                        offset,
                        val,
                        alias,
                        self.master_cycle,
                    );
                    self.update_clocks();
                }
            },
            UART0_BASE => {
                self.uart0.write32(offset, val, alias, &mut self.irq_pending);
            },
            UART1_BASE => {
                self.uart1.write32(offset, val, alias, &mut self.irq_pending);
            },
            SPI0_BASE => {
                self.spi0.write32(offset, val, alias, &mut self.irq_pending);
            },
            SPI1_BASE => {
                self.spi1.write32(offset, val, alias, &mut self.irq_pending);
            },
            I2C0_BASE => {
                self.i2c0.write32(offset, val, alias, &mut self.irq_pending);
            },
            I2C1_BASE => {
                self.i2c1.write32(offset, val, alias, &mut self.irq_pending);
            },
            ADC_BASE => {
                self.adc.write32(offset, val, alias, &mut self.irq_pending);
            },
            PWM_BASE => {
                self.pwm.write32(offset, val, alias, &mut self.irq_pending);
            },
            TIMER_BASE => {
                self.timer.write32(offset, val, alias, self.master_cycle, self.clock_tree.sys_clk_hz);
            },
            WATCHDOG_BASE => {
                self.watchdog_tick.write32(offset, val, alias);
            },
            _ => {
                proof {
                    lemma_apb_base(addr);
                }
                self.write_store(base, offset, val, alias);
            },
        }
    }
}

proof fn lemma_apb_base(addr: u32)
    ensures
        addr >> 28 == 4 ==> addr & 0xFFFF_C000 >= 0x4000_0000,
{
    lemma_address_facts(addr);
}

proof fn lemma_pll_fields(cs: u32, fbdiv: u32, prim: u32)
    ensures
        cs & 0x3F <= 0x3F,
        fbdiv & 0xFFF <= 4095,
        (prim >> 16) & 0x7 <= 7,
        (prim >> 12) & 0x7 <= 7,
{
    lemma_word_facts(cs, fbdiv, prim);
}

} // verus!
