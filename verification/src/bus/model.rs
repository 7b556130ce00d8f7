//! What the bus is, as a mathematical value: every memory and register behind
//! it, and what one access of each width makes of them.
use vstd::array::{spec_array_fill_for_copy_type, spec_array_update};
use vstd::prelude::*;

use crate::bits::{aliased, wadd};
use crate::bus::peripheral_dispatch::{reset_line, RESET_MASK};
use crate::bus::ppb::Ppb;
use crate::bus::sio::{core_index, Sio};
use crate::bus::{
    ADC_BASE, CLOCKS_BASE, DMA_BASE, I2C0_BASE, I2C1_BASE, PIO0_BASE, PIO1_BASE, PLL_SYS_BASE, PLL_USB_BASE,
    PWM_BASE, RESETS_BASE, SPI0_BASE, SPI1_BASE, SYSINFO_BASE, TIMER_BASE, TraceEntry, UART0_BASE,
    UART1_BASE, WATCHDOG_BASE, XOSC_HZ,
};
use crate::clocks::{ClockTree, Pll, ROSC_HZ};
use crate::cpu::nvic::Nvic;
use crate::cpu::systick::SysTick;
use crate::dma::Dma;
use crate::memory::{fits, load_or_zero, store, store_or_skip, MemoryView, Width};
use crate::peripherals::adc::{AdcRegs, FIFO};
use crate::peripherals::i2c::{I2cRegs, IC_DATA_CMD};
use crate::peripherals::pwm::PwmRegs;
use crate::peripherals::spi::{SpiRegs, SSPDR};
use crate::peripherals::timer::TimerRegs;
use crate::peripherals::uart::{UartView, UARTDR};
use crate::peripherals::watchdog_tick::WatchdogTickRegs;
use crate::pio::Pio;

verus! {

#[verifier::ext_equal]
pub struct BusState {
    pub memory: MemoryView,
    pub ppb: [Ppb; 2],
    pub nvics: [Nvic; 2],
    pub systicks: [SysTick; 2],
    pub sio: Sio,
    pub dma: Dma,
    pub pio: [Pio; 2],
    pub uart0: UartView,
    pub uart1: UartView,
    pub spi0: SpiRegs,
    pub spi1: SpiRegs,
    pub i2c0: I2cRegs,
    pub i2c1: I2cRegs,
    pub adc: AdcRegs,
    pub pwm: PwmRegs,
    pub timer: TimerRegs,
    pub watchdog_tick: WatchdogTickRegs,
    pub resets: u32,
    pub pll_sys: Pll,
    pub pll_usb: Pll,
    pub pll_sys_lock_at_cycle: Option<u64>,
    pub pll_usb_lock_at_cycle: Option<u64>,
    pub rosc_hz: u32,
    pub clock_tree: ClockTree,
    pub apb: Seq<u32>,
    pub xip_ctrl: [u32; 64],
    pub ssi: [u32; 64],
    pub irq_pending: u32,
    pub master_cycle: u64,
    pub fault: bool,
    pub fault_addr: u32,
    pub gpio_in: u32,
    pub external_gpio_in_mask: u32,
    pub external_gpio_in_override: u32,
    pub event_flag: [bool; 2],
    pub wfe_waiting: [bool; 2],
    pub active_core: usize,
    pub pending_cache_invalidations: Seq<u32>,
    pub pending_invalidation_regions: u32,
    pub mmio_trace_enabled: bool,
    pub mmio_trace: Seq<TraceEntry>,
    pub last_access_cycles: u32,
}

/// The part of a word that an access of width `w` at `addr` sees.
pub open spec fn lane(word: u32, addr: u32, w: Width) -> u32 {
    (word >> ((8 * (addr % 4)) as u32)) & w.mask()
}

/// A word with that part replaced by `val`.
pub open spec fn merged(word: u32, addr: u32, w: Width, val: u32) -> u32 {
    (word & !(w.mask() << ((8 * (addr % 4)) as u32))) | ((val & w.mask()) << ((8 * (addr % 4)) as u32))
}

/// A narrow value moved to its place in the word.
pub open spec fn in_lane(addr: u32, w: Width, val: u32) -> u32 {
    (val & w.mask()) << ((8 * (addr % 4)) as u32)
}

/// A register that feeds or drains a queue, which a narrow access must not
/// touch twice.
pub open spec fn is_data_register(base: u32, offset: u32) -> bool {
    if base == UART0_BASE || base == UART1_BASE {
        offset == UARTDR
    } else if base == SPI0_BASE || base == SPI1_BASE {
        offset == SSPDR
    } else if base == I2C0_BASE || base == I2C1_BASE {
        offset == IC_DATA_CMD
    } else {
        base == ADC_BASE && offset == FIFO
    }
}

/// The four registers of a loop.
pub open spec fn is_pll_register(offset: u32) -> bool {
    offset == 0x0 || offset == 0x4 || offset == 0x8 || offset == 0xC
}

/// A narrow value repeated over the word.
pub open spec fn replicated(val: u32, w: Width) -> u32 {
    match w {
        Width::Byte => ((val % 0x100) * 0x0101_0101) as u32,
        Width::Half => ((val % 0x1_0000) * 0x0001_0001) as u32,
        Width::Word => val,
    }
}

/// The halfword addresses that an access touches.
pub open spec fn touched(addr: u32, w: Width) -> Seq<u32> {
    let first = addr & 0xFFFF_FFFE;
    if w == Width::Byte || (w == Width::Half && addr % 2 == 0) {
        seq![first]
    } else if w == Width::Half || addr % 2 == 0 {
        seq![first, wadd(first, 2)]
    } else {
        seq![first, wadd(first, 2), wadd(first, 4)]
    }
}

/// The word of the APB store for a register, or none past its end.
pub open spec fn store_index(base: u32, offset: u32) -> int {
    (base - 0x4000_0000) / 0x4000 * 1024 + offset / 4
}

/// Offset of a PIO register inside the block, from its place on the bus: the
/// seven interrupt registers sit further up.
pub open spec fn pio_offset(offset: u32) -> u32 {
    if 0x128 <= offset <= 0x140 {
        (offset + 0x44) as u32
    } else {
        offset
    }
}

/// The frequency of a running loop, from the crystal.
pub open spec fn pll_hz(p: Pll) -> int {
    let refdiv = if p.cs & 0x3F == 0 {
        1
    } else {
        (p.cs & 0x3F) as int
    };
    let pd1 = if (p.prim >> 16) & 0x7 == 0 {
        1
    } else {
        ((p.prim >> 16) & 0x7) as int
    };
    let pd2 = if (p.prim >> 12) & 0x7 == 0 {
        1
    } else {
        ((p.prim >> 12) & 0x7) as int
    };
    if p.running() {
        XOSC_HZ as int / refdiv * (p.fbdiv & 0xFFF) / (pd1 * pd2)
    } else {
        0
    }
}

/// A frequency through an integer divider, where zero divides by one.
pub open spec fn divided(hz: int, div: u32) -> u32 {
    let q = if div == 0 {
        hz
    } else {
        hz / div as int
    };
    if q > 0xFFFF_FFFF {
        0xFFFF_FFFF
    } else {
        q as u32
    }
}

impl BusState {
    pub open spec fn at_reset() -> BusState {
        BusState {
            memory: MemoryView::at_reset(),
            ppb: spec_array_fill_for_copy_type::<Ppb, 2>(Ppb::at_reset()),
            nvics: spec_array_fill_for_copy_type::<Nvic, 2>(Nvic::at_reset()),
            systicks: spec_array_fill_for_copy_type::<SysTick, 2>(SysTick::at_reset()),
            sio: Sio::at_reset(),
            dma: Dma::at_reset(),
            pio: spec_array_fill_for_copy_type::<Pio, 2>(Pio::at_reset()),
            uart0: UartView::at_reset(20),
            uart1: UartView::at_reset(21),
            spi0: SpiRegs::at_reset(18),
            spi1: SpiRegs::at_reset(19),
            i2c0: I2cRegs::at_reset(23),
            i2c1: I2cRegs::at_reset(24),
            adc: AdcRegs::at_reset(22),
            pwm: PwmRegs::at_reset(4),
            timer: TimerRegs::at_reset(),
            watchdog_tick: WatchdogTickRegs::at_reset(),
            resets: RESET_MASK,
            pll_sys: Pll::at_reset(),
            pll_usb: Pll::at_reset(),
            pll_sys_lock_at_cycle: None,
            pll_usb_lock_at_cycle: None,
            rosc_hz: ROSC_HZ,
            clock_tree: ClockTree::at_reset(),
            apb: Seq::new(32768, |i: int| 0u32),
            xip_ctrl: spec_array_fill_for_copy_type::<u32, 64>(0),
            ssi: spec_array_fill_for_copy_type::<u32, 64>(0),
            irq_pending: 0,
            master_cycle: 0,
            fault: false,
            fault_addr: 0,
            gpio_in: 0,
            external_gpio_in_mask: 0,
            external_gpio_in_override: 0,
            event_flag: spec_array_fill_for_copy_type::<bool, 2>(false),
            wfe_waiting: spec_array_fill_for_copy_type::<bool, 2>(false),
            active_core: 0,
            pending_cache_invalidations: Seq::empty(),
            pending_invalidation_regions: 0,
            mmio_trace_enabled: false,
            mmio_trace: Seq::empty(),
            last_access_cycles: 1,
        }
    }

    /// The core that the bus acts for.
    pub open spec fn active(self) -> int {
        core_index(self.active_core)
    }

    pub open spec fn faulted(self, addr: u32) -> BusState {
        BusState { fault: true, fault_addr: addr, ..self }
    }

    /// The peripheral at `base` is held in reset: it reads as zero and
    /// ignores writes.
    pub open spec fn held(self, base: u32) -> bool {
        self.resets & reset_line(base) != 0
    }

    pub open spec fn stored(self, base: u32, offset: u32) -> u32 {
        if 0 <= store_index(base, offset) < self.apb.len() {
            self.apb[store_index(base, offset)]
        } else {
            0
        }
    }

    /// The clock tree that the oscillator, the loops and the clock registers
    /// make up.
    pub open spec fn derived_clocks(self) -> ClockTree {
        let ref_src = self.stored(CLOCKS_BASE, 0x30) & 0x3;
        let ref_in = if ref_src == 0 {
            self.rosc_hz as int
        } else if ref_src == 2 {
            XOSC_HZ as int
        } else {
            pll_hz(self.pll_usb)
        };
        let ref_hz = divided(ref_in, (self.stored(CLOCKS_BASE, 0x34) >> 8) & 0x3);
        let sys_ctrl = self.stored(CLOCKS_BASE, 0x3C);
        let sys_aux = (sys_ctrl >> 5) & 0x7;
        let sys_in = if sys_ctrl & 0x1 == 0 {
            ref_hz as int
        } else if sys_aux == 0 {
            pll_hz(self.pll_sys)
        } else if sys_aux == 1 {
            pll_hz(self.pll_usb)
        } else if sys_aux == 2 {
            self.rosc_hz as int
        } else {
            XOSC_HZ as int
        };
        let sys_hz = divided(sys_in, self.stored(CLOCKS_BASE, 0x40) >> 8);
        let peri_aux = (self.stored(CLOCKS_BASE, 0x48) >> 5) & 0x7;
        let peri_in = if peri_aux == 1 {
            pll_hz(self.pll_sys)
        } else if peri_aux == 2 {
            pll_hz(self.pll_usb)
        } else if peri_aux == 3 {
            self.rosc_hz as int
        } else if peri_aux == 4 {
            XOSC_HZ as int
        } else {
            sys_hz as int
        };
        ClockTree { sys_clk_hz: sys_hz, ref_clk_hz: ref_hz, peri_clk_hz: divided(peri_in, 0) }
    }

    pub open spec fn reclocked(self) -> BusState {
        BusState { clock_tree: self.derived_clocks(), ..self }
    }

    /// The register word at a word-aligned APB address.
    pub open spec fn apb_word(self, addr: u32) -> u32 {
        let base = addr & 0xFFFF_C000;
        let offset = addr & 0xFFF;
        if self.held(base) {
            0
        } else if base == SYSINFO_BASE {
            if offset == 0 {
                1
            } else {
                0
            }
        } else if base == RESETS_BASE {
            if offset == 0 {
                self.resets
            } else if offset == 8 {
                !self.resets & RESET_MASK
            } else {
                0
            }
        } else if base == PLL_SYS_BASE {
            self.pll_sys.word_at(self.pll_sys_lock_at_cycle, offset, self.master_cycle)
        } else if base == PLL_USB_BASE {
            self.pll_usb.word_at(self.pll_usb_lock_at_cycle, offset, self.master_cycle)
        } else if base == UART0_BASE {
            self.uart0.state.word_at(offset)
        } else if base == UART1_BASE {
            self.uart1.state.word_at(offset)
        } else if base == SPI0_BASE {
            self.spi0.word_at(offset)
        } else if base == SPI1_BASE {
            self.spi1.word_at(offset)
        } else if base == I2C0_BASE {
            self.i2c0.word_at(offset)
        } else if base == I2C1_BASE {
            self.i2c1.word_at(offset)
        } else if base == ADC_BASE {
            self.adc.word_at(offset)
        } else if base == PWM_BASE {
            self.pwm.word_at(offset)
        } else if base == TIMER_BASE {
            self.timer.word_at(offset, self.master_cycle, self.clock_tree.sys_clk_hz)
        } else if base == WATCHDOG_BASE {
            self.watchdog_tick.word_at(offset)
        } else {
            self.stored(base, offset)
        }
    }

    /// What reading it does.
    pub open spec fn after_apb_read(self, addr: u32) -> BusState {
        let base = addr & 0xFFFF_C000;
        let offset = addr & 0xFFF;
        if self.held(base) {
            self
        } else if base == SPI0_BASE {
            BusState { spi0: self.spi0.after_read(offset), ..self }
        } else if base == SPI1_BASE {
            BusState { spi1: self.spi1.after_read(offset), ..self }
        } else if base == I2C0_BASE {
            BusState { i2c0: self.i2c0.after_read(offset), ..self }
        } else if base == I2C1_BASE {
            BusState { i2c1: self.i2c1.after_read(offset), ..self }
        } else if base == ADC_BASE {
            BusState { adc: self.adc.after_read(offset), ..self }
        } else if base == TIMER_BASE {
            BusState {
                timer: self.timer.after_read(offset, self.master_cycle, self.clock_tree.sys_clk_hz),
                ..self
            }
        } else {
            self
        }
    }

    /// A write to the register store, with the clocks derived anew where the
    /// register is one that they depend on.
    pub open spec fn after_store(self, base: u32, offset: u32, val: u32, alias: u32) -> BusState {
        let i = store_index(base, offset);
        if offset % 4 == 0 && 0 <= i < self.apb.len() {
            let next = BusState { apb: self.apb.update(i, aliased(self.apb[i], val, alias)), ..self };
            if base == CLOCKS_BASE && (offset == 0x30 || offset == 0x34 || offset == 0x3C || offset == 0x40
                || offset == 0x48) {
                next.reclocked()
            } else {
                next
            }
        } else {
            self
        }
    }

    /// A write of `val` to an APB address.
    #[verifier::opaque]
    pub open spec fn after_apb_write(self, addr: u32, val: u32) -> BusState {
        let base = addr & 0xFFFF_C000;
        let offset = addr & 0xFFF;
        let alias = (addr >> 12) & 0x3;
        let now = self.master_cycle;
        if self.held(base) {
            self
        } else if base == SYSINFO_BASE {
            self
        } else if base == RESETS_BASE {
            if offset == 0 {
                BusState { resets: aliased(self.resets, val, alias) & RESET_MASK, ..self }
            } else {
                self
            }
        } else if base == PLL_SYS_BASE {
            if is_pll_register(offset) {
                (BusState {
                    pll_sys: self.pll_sys.after_write(offset, val, alias),
                    pll_sys_lock_at_cycle: self.pll_sys.lock_after_write(
                        self.pll_sys_lock_at_cycle,
                        offset,
                        val,
                        alias,
                        now,
                    ),
                    ..self
                }).reclocked()
            } else {
                self
            }
        } else if base == PLL_USB_BASE {
            if is_pll_register(offset) {
                (BusState {
                    pll_usb: self.pll_usb.after_write(offset, val, alias),
                    pll_usb_lock_at_cycle: self.pll_usb.lock_after_write(
                        self.pll_usb_lock_at_cycle,
                        offset,
                        val,
                        alias,
                        now,
                    ),
                    ..self
                }).reclocked()
            } else {
                self
            }
        } else if base == UART0_BASE {
            let p = self.uart0.after_write(offset, val, alias);
            BusState { uart0: p, irq_pending: p.state.routed(self.irq_pending), ..self }
        } else if base == UART1_BASE {
            let p = self.uart1.after_write(offset, val, alias);
            BusState { uart1: p, irq_pending: p.state.routed(self.irq_pending), ..self }
        } else if base == SPI0_BASE {
            let p = self.spi0.after_write(offset, val, alias);
            BusState { spi0: p, irq_pending: p.routed(self.irq_pending), ..self }
        } else if base == SPI1_BASE {
            let p = self.spi1.after_write(offset, val, alias);
            BusState { spi1: p, irq_pending: p.routed(self.irq_pending), ..self }
        } else if base == I2C0_BASE {
            let p = self.i2c0.after_write(offset, val, alias);
            BusState { i2c0: p, irq_pending: p.routed(self.irq_pending), ..self }
        } else if base == I2C1_BASE {
            let p = self.i2c1.after_write(offset, val, alias);
            BusState { i2c1: p, irq_pending: p.routed(self.irq_pending), ..self }
        } else if base == ADC_BASE {
            let p = self.adc.after_write(offset, val, alias);
            BusState { adc: p, irq_pending: p.routed(self.irq_pending), ..self }
        } else if base == PWM_BASE {
            let p = self.pwm.after_write(offset, val, alias);
            BusState { pwm: p, irq_pending: p.routed(self.irq_pending), ..self }
        } else if base == TIMER_BASE {
            BusState {
                timer: self.timer.after_write(offset, val, alias, now, self.clock_tree.sys_clk_hz),
                ..self
            }
        } else if base == WATCHDOG_BASE {
            BusState { watchdog_tick: self.watchdog_tick.after_write(offset, val, alias), ..self }
        } else {
            self.after_store(base, offset, val, alias)
        }
    }

    /// A write of width `w` to an APB address. A narrow write replaces its part
    /// of the register word, or through a modifying port acts on that part
    /// alone; a data register takes the narrow value as it is.
    pub open spec fn after_apb_update(self, addr: u32, w: Width, val: u32) -> BusState {
        let word = addr & 0xFFFF_FFFC;
        if w == Width::Word || is_data_register(addr & 0xFFFF_C000, word & 0xFFF) {
            self.after_apb_write(addr, val)
        } else if (addr >> 12) & 0x3 == 0 {
            self.after_apb_write(word, merged(self.apb_word(word), addr, w, val))
        } else {
            self.after_apb_write(word, in_lane(addr, w, val))
        }
    }

    /// The register word at a word-aligned AHB address: the DMA controller
    /// and the two PIO blocks.
    pub open spec fn ahb_word(self, addr: u32) -> u32 {
        let base = addr & 0xFFFF_C000;
        let offset = addr & 0xFFF;
        if base == DMA_BASE {
            if self.held(base) {
                0
            } else {
                self.dma.word_at(offset)
            }
        } else if base == PIO0_BASE {
            self.pio[0].word_at(pio_offset(offset))
        } else if base == PIO1_BASE {
            self.pio[1].word_at(pio_offset(offset))
        } else {
            0
        }
    }

    pub open spec fn after_ahb_read(self, addr: u32) -> BusState {
        let base = addr & 0xFFFF_C000;
        let offset = addr & 0xFFF;
        if base == PIO0_BASE {
            BusState { pio: spec_array_update(self.pio, 0, self.pio[0].after_read(pio_offset(offset))), ..self }
        } else if base == PIO1_BASE {
            BusState { pio: spec_array_update(self.pio, 1, self.pio[1].after_read(pio_offset(offset))), ..self }
        } else {
            self
        }
    }

    /// A write to a PIO block. A narrow write reaches the transmit queues
    /// alone, repeated over the word.
    pub open spec fn after_pio_write(self, n: int, addr: u32, w: Width, val: u32) -> BusState {
        let offset = addr & 0xFFF;
        let alias = (addr >> 12) & 0x3;
        if w == Width::Word || Pio::is_txf(offset) {
            BusState {
                pio: spec_array_update(
                    self.pio,
                    n,
                    self.pio[n].after_write(pio_offset(offset), replicated(val, w), alias),
                ),
                ..self
            }
        } else {
            self
        }
    }

    pub open spec fn after_ahb_write(self, addr: u32, w: Width, val: u32) -> BusState {
        let base = addr & 0xFFFF_C000;
        if base == DMA_BASE {
            if self.held(base) {
                self
            } else {
                BusState { dma: self.dma.after_write(addr & 0xFFF, val, (addr >> 12) & 0x3), ..self }
            }
        } else if base == PIO0_BASE {
            self.after_pio_write(0, addr, w, val)
        } else if base == PIO1_BASE {
            self.after_pio_write(1, addr, w, val)
        } else {
            self
        }
    }

    /// The word at a word-aligned SIO address, for the active core. The pin
    /// inputs are the bus's own.
    pub open spec fn sio_word(self, addr: u32) -> u32 {
        let offset = addr & 0xFFF;
        if offset == 0x004 {
            self.gpio_in
        } else {
            self.sio.word_at(offset, self.active_core)
        }
    }

    /// A word write to the SIO block. A word that reached a mailbox sets the
    /// event flag of the core that reads it.
    pub open spec fn after_sio_write(self, addr: u32, val: u32) -> BusState {
        let sio = self.sio.after_write(addr & 0xFFF, val, self.active_core);
        BusState {
            sio: Sio { pending_fifo_event: None, ..sio },
            event_flag: match sio.pending_fifo_event {
                Some(core) => spec_array_update(self.event_flag, core_index(core), true),
                None => self.event_flag,
            },
            ..self
        }
    }

    /// The word at a word-aligned address on the active core's private
    /// peripheral bus.
    pub open spec fn ppb_word(self, addr: u32) -> u32 {
        if 0xE000_E010 <= addr < 0xE000_E020 {
            self.systicks[self.active()].word_at(addr & 0xFFF)
        } else if 0xE000_E100 <= addr < 0xE000_E420 {
            self.nvics[self.active()].word_at(addr & 0xFFF)
        } else {
            self.ppb[self.active()].word_at(addr)
        }
    }

    pub open spec fn after_ppb_read(self, addr: u32) -> BusState {
        if 0xE000_E010 <= addr < 0xE000_E020 {
            BusState {
                systicks: spec_array_update(
                    self.systicks,
                    self.active(),
                    self.systicks[self.active()].after_read(addr & 0xFFF),
                ),
                ..self
            }
        } else {
            self
        }
    }

    pub open spec fn after_ppb_write(self, addr: u32, val: u32) -> BusState {
        if 0xE000_E010 <= addr < 0xE000_E020 {
            BusState {
                systicks: spec_array_update(
                    self.systicks,
                    self.active(),
                    self.systicks[self.active()].after_write(addr & 0xFFF, val),
                ),
                ..self
            }
        } else if 0xE000_E100 <= addr < 0xE000_E420 {
            BusState {
                nvics: spec_array_update(
                    self.nvics,
                    self.active(),
                    self.nvics[self.active()].after_write(addr & 0xFFF, val),
                ),
                ..self
            }
        } else {
            BusState {
                ppb: spec_array_update(self.ppb, self.active(), self.ppb[self.active()].after_write(addr, val)),
                ..self
            }
        }
    }

    /// The external flash window and its control blocks. Nothing here
    /// faults.
    pub open spec fn xip_value(self, addr: u32, w: Width) -> u32 {
        let block = addr >> 24;
        let at = (addr & 0x00FF_FFFF) as int;
        let reg = ((addr & 0xFFF) / 4) as int;
        if 0x10 <= block <= 0x13 {
            load_or_zero(self.memory.flash, at, w)
        } else if block == 0x14 {
            lane(
                if reg < 64 {
                    self.xip_ctrl[reg]
                } else {
                    0
                },
                addr,
                w,
            )
        } else if block == 0x15 {
            load_or_zero(self.memory.xip_sram, at, w)
        } else if block == 0x18 {
            lane(
                if reg == 10 {
                    0x6
                } else if reg < 64 {
                    self.ssi[reg]
                } else {
                    0
                },
                addr,
                w,
            )
        } else {
            0
        }
    }

    pub open spec fn after_xip_write(self, addr: u32, w: Width, val: u32) -> BusState {
        let block = addr >> 24;
        let at = (addr & 0x00FF_FFFF) as int;
        let reg = ((addr & 0xFFF) / 4) as int;
        if block == 0x15 {
            BusState {
                memory: MemoryView {
                    xip_sram: store_or_skip(self.memory.xip_sram, at, w, val),
                    ..self.memory
                },
                pending_cache_invalidations: self.pending_cache_invalidations + touched(addr, w),
                ..self
            }
        } else if block == 0x14 && w == Width::Word && reg < 64 {
            BusState { xip_ctrl: spec_array_update(self.xip_ctrl, reg, val), ..self }
        } else if block == 0x18 && w == Width::Word && reg < 64 {
            BusState { ssi: spec_array_update(self.ssi, reg, val), ..self }
        } else {
            self
        }
    }

    /// What an access of width `w` at `addr` reads.
    #[verifier::opaque]
    pub open spec fn value_at(self, addr: u32, w: Width) -> u32 {
        let region = addr >> 28;
        let word = addr & 0xFFFF_FFFC;
        if region == 0 {
            load_or_zero(self.memory.rom, addr as int, w)
        } else if region == 1 {
            self.xip_value(addr, w)
        } else if region == 2 {
            load_or_zero(self.memory.sram, addr - 0x2000_0000, w)
        } else if region == 4 {
            lane(self.apb_word(word), addr, w)
        } else if region == 5 {
            lane(self.ahb_word(word), addr, w)
        } else if region == 0xD {
            lane(self.sio_word(word), addr, w)
        } else if region == 0xE {
            lane(self.ppb_word(word), addr, w)
        } else {
            0
        }
    }

    /// What reading it does: a fault where nothing answers, and the effects
    /// that some registers have.
    #[verifier::opaque]
    pub open spec fn after_access(self, addr: u32, w: Width) -> BusState {
        let region = addr >> 28;
        let word = addr & 0xFFFF_FFFC;
        if region == 0 {
            if fits(self.memory.rom, addr as int, w) {
                self
            } else {
                self.faulted(addr)
            }
        } else if region == 1 {
            self
        } else if region == 2 {
            if fits(self.memory.sram, addr - 0x2000_0000, w) {
                BusState { last_access_cycles: 1, ..self }
            } else {
                self.faulted(addr)
            }
        } else if region == 4 {
            self.after_apb_read(word)
        } else if region == 5 {
            self.after_ahb_read(word)
        } else if region == 0xD {
            BusState { sio: self.sio.after_read(word & 0xFFF, self.active_core), ..self }
        } else if region == 0xE {
            self.after_ppb_read(word)
        } else {
            self.faulted(addr)
        }
    }

    /// The bus after a write of width `w`. Narrow writes replace their part of
    /// a register word, except where a queue takes the narrow value.
    #[verifier::opaque]
    pub open spec fn after_update(self, addr: u32, w: Width, val: u32) -> BusState {
        let region = addr >> 28;
        let word = addr & 0xFFFF_FFFC;
        if region == 0 {
            self
        } else if region == 1 {
            self.after_xip_write(addr, w, val)
        } else if region == 2 {
            if fits(self.memory.sram, addr - 0x2000_0000, w) {
                BusState {
                    memory: MemoryView {
                        sram: store(self.memory.sram, addr - 0x2000_0000, w, val),
                        ..self.memory
                    },
                    pending_cache_invalidations: self.pending_cache_invalidations + touched(addr, w),
                    last_access_cycles: 1,
                    ..self
                }
            } else {
                self.faulted(addr)
            }
        } else if region == 4 {
            self.after_apb_update(addr, w, val)
        } else if region == 5 {
            self.after_ahb_write(addr, w, val)
        } else if region == 0xD {
            self.after_sio_write(
                word,
                if w == Width::Word {
                    val
                } else {
                    merged(self.sio_word(word), addr, w, val)
                },
            )
        } else if region == 0xE {
            self.after_ppb_write(
                word,
                if w == Width::Word {
                    val
                } else {
                    merged(self.ppb_word(word), addr, w, val)
                },
            )
        } else {
            self.faulted(addr)
        }
    }

    /// The bus with an access on record, where tracing is on.
    pub open spec fn traced(self, entry: TraceEntry) -> BusState {
        if self.mmio_trace_enabled {
            BusState { mmio_trace: self.mmio_trace.push(entry), ..self }
        } else {
            self
        }
    }

    #[verifier::opaque]
    pub open spec fn after_read(self, addr: u32, w: Width) -> BusState {
        self.after_access(addr, w).traced(
            TraceEntry { write: false, width: w, addr, value: self.value_at(addr, w) },
        )
    }

    #[verifier::opaque]
    pub open spec fn after_write(self, addr: u32, w: Width, val: u32) -> BusState {
        self.after_update(addr, w, val).traced(TraceEntry { write: true, width: w, addr, value: val })
    }
}

} // verus!
