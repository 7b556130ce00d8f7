//! Everything that happens between accesses: time, transfers, events.
use vstd::array::spec_array_update;
use vstd::prelude::*;

use crate::bits::lemma_word_facts;
use crate::bus::model::BusState;
use crate::bus::ppb::{Ppb, ICSR_PENDSTSET};
use crate::bus::sio::PIN_MASK;
use crate::bus::{Bus, TraceEntry};
use crate::clocks::ClockTree;
use crate::cpu::nvic::Nvic;
use crate::dma::Channel;
use crate::dreq::{
    DREQ_ADC, DREQ_FORCE, DREQ_I2C0_RX, DREQ_I2C0_TX, DREQ_I2C1_RX, DREQ_I2C1_TX, DREQ_PIO0_RX0, DREQ_PIO0_TX0,
    DREQ_PIO1_RX0, DREQ_PIO1_TX0, DREQ_SPI0_RX, DREQ_SPI0_TX, DREQ_SPI1_RX, DREQ_SPI1_TX, DREQ_UART0_TX,
    DREQ_UART1_TX,
};
use crate::irq::{IRQ_MASK, IRQ_PIO0_IRQ_0, IRQ_PIO0_IRQ_1, IRQ_PIO1_IRQ_0, IRQ_PIO1_IRQ_1};
use crate::memory::Width;
use crate::peripherals::i2c::I2C_FIFO_DEPTH;
use crate::peripherals::spi::SSP_FIFO_DEPTH;
use crate::peripherals::uart::UartView;
use crate::pio::Pio;

verus! {

/// Request line `n`, as a bit, while `on`.
pub open spec fn line(n: u8, on: bool) -> u64 {
    if on {
        1u64 << (n as u64)
    } else {
        0
    }
}

fn raise(n: u8, on: bool) -> (out: u64)
    requires
        n < 64,
    ensures
        out == line(n, on),
{
    if on {
        1u64 << (n as u64)
    } else {
        0
    }
}

/// The access width that a DMA channel moves.
pub open spec fn transfer_width(c: Channel) -> Width {
    if c.size() == 1 {
        Width::Byte
    } else if c.size() == 2 {
        Width::Half
    } else {
        Width::Word
    }
}

impl BusState {
    /// The request lines of one PIO block: four transmit queues with room,
    /// four receive queues with data.
    pub open spec fn pio_dreqs(p: Pio, tx: u8, rx: u8) -> u64 {
        line(tx, !p.tx_full(0)) | line((tx + 1) as u8, !p.tx_full(1)) | line((tx + 2) as u8, !p.tx_full(2))
            | line((tx + 3) as u8, !p.tx_full(3)) | line(rx, p.sms[0].rx.count > 0) | line(
            (rx + 1) as u8,
            p.sms[1].rx.count > 0,
        ) | line((rx + 2) as u8, p.sms[2].rx.count > 0) | line((rx + 3) as u8, p.sms[3].rx.count > 0)
    }

    /// Every request line that asks.
    pub open spec fn dreqs(self) -> u64 {
        BusState::pio_dreqs(self.pio[0], DREQ_PIO0_TX0, DREQ_PIO0_RX0) | BusState::pio_dreqs(
            self.pio[1],
            DREQ_PIO1_TX0,
            DREQ_PIO1_RX0,
        ) | line(DREQ_SPI0_TX, self.spi0.enabled() && self.spi0.tx.count < SSP_FIFO_DEPTH) | line(
            DREQ_SPI0_RX,
            self.spi0.enabled() && self.spi0.rx.count > 0,
        ) | line(DREQ_SPI1_TX, self.spi1.enabled() && self.spi1.tx.count < SSP_FIFO_DEPTH) | line(
            DREQ_SPI1_RX,
            self.spi1.enabled() && self.spi1.rx.count > 0,
        ) | line(
            DREQ_UART0_TX,
            self.uart0.state.tx_enabled() && self.uart0.state.tx.count < self.uart0.state.capacity(),
        ) | line(
            DREQ_UART1_TX,
            self.uart1.state.tx_enabled() && self.uart1.state.tx.count < self.uart1.state.capacity(),
        ) | line(DREQ_I2C0_TX, self.i2c0.enabled() && self.i2c0.tx.count < I2C_FIFO_DEPTH) | line(
            DREQ_I2C0_RX,
            self.i2c0.enabled() && self.i2c0.rx.count > 0,
        ) | line(DREQ_I2C1_TX, self.i2c1.enabled() && self.i2c1.tx.count < I2C_FIFO_DEPTH) | line(
            DREQ_I2C1_RX,
            self.i2c1.enabled() && self.i2c1.rx.count > 0,
        ) | line(DREQ_ADC, self.adc.wants_dma()) | line(DREQ_FORCE, true)
    }

    /// One transfer of channel `n`: a read, a write of what was read, and the
    /// controller's bookkeeping.
    pub open spec fn after_transfer(self, n: int) -> BusState {
        let c = self.dma.channels[n];
        let w = transfer_width(c);
        let moved = self.after_read(c.read_addr, w).after_write(
            c.write_addr,
            w,
            self.value_at(c.read_addr, w),
        );
        BusState { dma: moved.dma.after_transfer(n), ..moved }
    }

    /// One DMA clock: at most one transfer, then the interrupts.
    #[verifier::opaque]
    pub open spec fn after_dma_tick(self) -> BusState {
        let moved = match self.dma.first_ready_from(0, self.dreqs()) {
            Some(n) => self.after_transfer(n),
            None => self,
        };
        BusState { irq_pending: moved.dma.routed(moved.irq_pending), ..moved }
    }

    pub open spec fn after_dma_ticks(self, n: nat) -> BusState
        decreases n,
    {
        if n == 0 {
            self
        } else {
            self.after_dma_ticks((n - 1) as nat).after_dma_tick()
        }
    }

    pub open spec fn peripherals_idle(self) -> bool {
        &&& self.uart0.state.tx.count == 0 && self.uart0.state.ris == 0
        &&& self.uart1.state.tx.count == 0 && self.uart1.state.ris == 0
        &&& self.spi0.tx.count == 0 && self.spi0.rx.count == 0 && self.spi0.ris == 0
        &&& self.spi1.tx.count == 0 && self.spi1.rx.count == 0 && self.spi1.ris == 0
        &&& self.i2c0.tx.count == 0 && self.i2c0.rx.count == 0 && self.i2c0.raw_intr == 0
        &&& self.i2c1.tx.count == 0 && self.i2c1.rx.count == 0 && self.i2c1.raw_intr == 0
        &&& !self.adc.busy() && self.adc.ints() == 0
        &&& self.pwm.en_view_upto(8) == 0 && self.pwm.intr == 0 && self.pwm.intf & self.pwm.inte == 0
        &&& self.timer.intr == 0
    }

    /// `cycles` system clocks of every clocked peripheral, in order, each
    /// adding its interrupt line.
    #[verifier::opaque]
    pub open spec fn after_peripheral_ticks(self, cycles: u32) -> BusState {
        let t = self.clock_tree;
        let i0 = self.uart0.routed_by_tick(cycles, t, self.irq_pending);
        let i1 = self.uart1.routed_by_tick(cycles, t, i0);
        let i2 = self.spi0.routed_by_tick(cycles, t, i1);
        let i3 = self.spi1.routed_by_tick(cycles, t, i2);
        let i4 = self.i2c0.routed(i3);
        let i5 = self.i2c1.routed(i4);
        let adc = self.adc.after_tick(cycles, t);
        let i6 = adc.routed(i5);
        let pwm = self.pwm.run_upto(8, cycles);
        BusState {
            uart0: self.uart0.after_tick(cycles, t),
            uart1: self.uart1.after_tick(cycles, t),
            spi0: self.spi0.after_tick(cycles, t),
            spi1: self.spi1.after_tick(cycles, t),
            adc,
            pwm,
            irq_pending: pwm.routed(i6),
            ..self
        }
    }

    /// The interrupt lines of both PIO blocks added to the bitmap.
    pub open spec fn pio_routed(self) -> u32 {
        let a = if self.pio[0].ints0() != 0 {
            self.irq_pending | (1u32 << IRQ_PIO0_IRQ_0)
        } else {
            self.irq_pending
        };
        let b = if self.pio[0].ints1() != 0 {
            a | (1u32 << IRQ_PIO0_IRQ_1)
        } else {
            a
        };
        let c = if self.pio[1].ints0() != 0 {
            b | (1u32 << IRQ_PIO1_IRQ_0)
        } else {
            b
        };
        if self.pio[1].ints1() != 0 {
            c | (1u32 << IRQ_PIO1_IRQ_1)
        } else {
            c
        }
    }

    #[verifier::opaque]
    pub open spec fn after_pio_ticks(self, cycles: u32) -> BusState {
        let next = BusState {
            pio: spec_array_update(
                spec_array_update(self.pio, 0, self.pio[0].after_tick(cycles, self.gpio_in)),
                1,
                self.pio[1].after_tick(cycles, self.gpio_in),
            ),
            ..self
        };
        BusState { irq_pending: next.pio_routed(), ..next }
    }

    /// One clock of a core's SysTick; when it fires, the exception pends.
    #[verifier::opaque]
    pub open spec fn after_systick_tick(self, n: int) -> BusState {
        BusState {
            systicks: spec_array_update(self.systicks, n, self.systicks[n].after_tick()),
            ppb: if self.systicks[n].fires() {
                spec_array_update(
                    self.ppb,
                    n,
                    Ppb { icsr: self.ppb[n].icsr | ICSR_PENDSTSET, ..self.ppb[n] },
                )
            } else {
                self.ppb
            },
            ..self
        }
    }

    pub open spec fn after_systick_ticks(self, n: int, count: nat) -> BusState
        decreases count,
    {
        if count == 0 {
            self
        } else {
            self.after_systick_ticks(n, (count - 1) as nat).after_systick_tick(n)
        }
    }

    /// The alarms that are due at `cycle` fire.
    #[verifier::opaque]
    pub open spec fn after_alarms(self, cycle: u64) -> BusState {
        BusState {
            timer: self.timer.fired_upto(4, cycle),
            irq_pending: self.irq_pending | self.timer.fired_lines_upto(4, cycle),
            ..self
        }
    }

    /// The raised lines latched by both cores.
    #[verifier::opaque]
    pub open spec fn irqs_latched(self) -> BusState {
        let lines = self.irq_pending & IRQ_MASK;
        BusState {
            nvics: spec_array_update(
                spec_array_update(
                    self.nvics,
                    0,
                    Nvic { pending: self.nvics[0].pending | lines, ..self.nvics[0] },
                ),
                1,
                Nvic { pending: self.nvics[1].pending | lines, ..self.nvics[1] },
            ),
            irq_pending: 0,
            ..self
        }
    }

    /// What the chip itself drives onto the pins.
    pub open spec fn driven_pins(self) -> u32 {
        ((self.sio.gpio_out & self.sio.gpio_oe) | (self.pio[0].pad_out & self.pio[0].pad_oe) | (
        self.pio[1].pad_out & self.pio[1].pad_oe)) & PIN_MASK
    }

    /// The pins as inputs: what the chip drives, and over it what is driven
    /// from outside.
    #[verifier::opaque]
    pub open spec fn pins_merged(self) -> BusState {
        BusState {
            gpio_in: (self.driven_pins() & !self.external_gpio_in_mask) | (self.external_gpio_in_override
                & self.external_gpio_in_mask),
            ..self
        }
    }
}

impl Bus {
    pub fn bus_fault(&self) -> (out: bool)
        ensures
            out == self@.fault,
    {
        self.fault
    }

    pub fn bus_fault_addr(&self) -> (out: u32)
        ensures
            out == self@.fault_addr,
    {
        self.fault_addr
    }

    pub fn clear_bus_fault(&mut self)
        ensures
            final(self)@ == (BusState { fault: false, ..old(self)@ }),
    {
        self.fault = false;
    }

    pub fn irq_pending(&self) -> (out: u32)
        ensures
            out == self@.irq_pending,
    {
        self.irq_pending
    }

    pub fn gpio_in(&self) -> (out: u32)
        ensures
            out == self@.gpio_in,
    {
        self.gpio_in
    }

    pub fn last_access_cycles(&self) -> (out: u32)
        ensures
            out == self@.last_access_cycles,
    {
        self.last_access_cycles
    }

    /// Selects the core that accesses act for.
    pub fn set_active_core(&mut self, n: usize)
        ensures
            final(self)@ == (BusState { active_core: n, ..old(self)@ }),
    {
        self.active_core = n;
    }

    /// Sets the oscillator's frequency and runs every clock from it.
    pub fn seed_sys_clk_hz(&mut self, hz: u32)
        ensures
            final(self)@ == (BusState { rosc_hz: hz, clock_tree: ClockTree::all(hz), ..old(self)@ }),
    {
        self.rosc_hz = hz;
        self.clock_tree = ClockTree { sys_clk_hz: hz, ref_clk_hz: hz, peri_clk_hz: hz };
    }

    pub fn sys_clk_hz(&self) -> (out: u32)
        ensures
            out == self@.clock_tree.sys_clk_hz,
    {
        self.clock_tree.sys_clk_hz
    }

    pub fn ref_clk_hz(&self) -> (out: u32)
        ensures
            out == self@.clock_tree.ref_clk_hz,
    {
        self.clock_tree.ref_clk_hz
    }

    /// An event for both cores.
    pub fn signal_sev(&mut self)
        ensures
            final(self)@ == (BusState {
                event_flag: spec_array_update(spec_array_update(old(self)@.event_flag, 0, true), 1, true),
                ..old(self)@
            }),
    {
        self.event_flag[0] = true;
        self.event_flag[1] = true;
    }

    pub fn drain_uart0_tx_log(&mut self) -> (log: Vec<u8>)
        ensures
            log@ == old(self)@.uart0.tx_log,
            final(self)@ == (BusState {
                uart0: UartView { tx_log: Seq::empty(), ..old(self)@.uart0 },
                ..old(self)@
            }),
    {
        self.uart0.drain_tx_log()
    }

    /// Takes the record of accesses.
    pub fn drain_mmio_trace(&mut self) -> (log: Vec<TraceEntry>)
        ensures
            log@ == old(self)@.mmio_trace,
            final(self)@ == (BusState { mmio_trace: Seq::empty(), ..old(self)@ }),
    {
        let mut log: Vec<TraceEntry> = Vec::new();
        log.append(&mut self.mmio_trace);
        log
    }

    pub fn all_peripherals_idle(&self) -> (out: bool)
        ensures
            out == self@.peripherals_idle(),
    {
        self.uart0.is_idle() && self.uart1.is_idle() && self.spi0.is_idle() && self.spi1.is_idle()
            && self.i2c0.is_idle() && self.i2c1.is_idle() && self.adc.is_idle() && self.pwm.is_idle()
            && self.timer.is_idle()
    }

    pub fn pio_all_idle(&self) -> (out: bool)
        ensures
            out == (self@.pio[0].idle() && self@.pio[1].idle()),
    {
        self.pio[0].is_idle() && self.pio[1].is_idle()
    }

    fn collect_pio_dreqs(&self, n: usize, tx: u8, rx: u8) -> (out: u64)
        requires
            n < 2,
            tx <= 56,
            rx <= 56,
        ensures
            out == BusState::pio_dreqs(self@.pio[n as int], tx, rx),
    {
        raise(tx, !self.pio[n].is_tx_full(0)) | raise(tx + 1, !self.pio[n].is_tx_full(1)) | raise(
            tx + 2,
            !self.pio[n].is_tx_full(2),
        ) | raise(tx + 3, !self.pio[n].is_tx_full(3)) | raise(rx, !self.pio[n].is_rx_empty(0)) | raise(
            rx + 1,
            !self.pio[n].is_rx_empty(1),
        ) | raise(rx + 2, !self.pio[n].is_rx_empty(2)) | raise(rx + 3, !self.pio[n].is_rx_empty(3))
    }

    /// Every transfer-request line that asks, one bit each.
    pub fn collect_dreqs(&self) -> (out: u64)
        ensures
            out == self@.dreqs(),
    {
        self.collect_pio_dreqs(0, DREQ_PIO0_TX0, DREQ_PIO0_RX0) | self.collect_pio_dreqs(
            1,
            DREQ_PIO1_TX0,
            DREQ_PIO1_RX0,
        ) | raise(DREQ_SPI0_TX, self.spi0.tx_dreq()) | raise(DREQ_SPI0_RX, self.spi0.rx_dreq()) | raise(
            DREQ_SPI1_TX,
            self.spi1.tx_dreq(),
        ) | raise(DREQ_SPI1_RX, self.spi1.rx_dreq()) | raise(DREQ_UART0_TX, self.uart0.tx_dreq()) | raise(
            DREQ_UART1_TX,
            self.uart1.tx_dreq(),
        ) | raise(DREQ_I2C0_TX, self.i2c0.tx_dreq()) | raise(DREQ_I2C0_RX, self.i2c0.rx_dreq()) | raise(
            DREQ_I2C1_TX,
            self.i2c1.tx_dreq(),
        ) | raise(DREQ_I2C1_RX, self.i2c1.rx_dreq()) | raise(DREQ_ADC, self.adc.dreq()) | raise(
            DREQ_FORCE,
            true,
        )
    }

    fn transfer(&mut self, n: usize)
        requires
            n < 12,
        ensures
            final(self)@ == old(self)@.after_transfer(n as int),
    {
        let from: u32 = self.dma.channels[n].read_addr;
        let to: u32 = self.dma.channels[n].write_addr;
        let w = match self.dma.channels[n].transfer_size() {
            1 => Width::Byte,
            2 => Width::Half,
            _ => Width::Word,
        };
        let val: u32 = self.read(from, w);
        self.write(to, w, val);
        self.dma.finish_transfer(n);
    }

    /// One clock of the DMA controller.
    pub fn tick_dma(&mut self)
        ensures
            final(self)@ == old(self)@.after_dma_tick(),
    {
        reveal(BusState::after_dma_tick);
        match self.dma.select(self.collect_dreqs()) {
            Some(n) => {
                self.transfer(n);
            },
            None => {},
        }
        self.dma.route_irqs(&mut self.irq_pending);
    }

    /// `count` clocks of the DMA controller.
    pub fn run_dma(&mut self, count: u32)
        ensures
            final(self)@ == old(self)@.after_dma_ticks(count as nat),
    {
        let ghost before = self@;
        let mut done: u32 = 0;
        while done < count
            invariant
                done <= count,
                self@ == before.after_dma_ticks(done as nat),
            decreases count - done,
        {
            self.tick_dma();
            done += 1;
        }
    }

    /// Runs the clocked peripherals for `cycles` system clocks.
    pub fn tick_peripherals(&mut self, cycles: u32)
        ensures
            final(self)@ == old(self)@.after_peripheral_ticks(cycles),
    {
        reveal(BusState::after_peripheral_ticks);
        let tree = self.clock_tree;
        self.uart0.tick(cycles, &tree, &mut self.irq_pending);
        self.uart1.tick(cycles, &tree, &mut self.irq_pending);
        self.spi0.tick(cycles, &tree, &mut self.irq_pending);
        self.spi1.tick(cycles, &tree, &mut self.irq_pending);
        self.i2c0.tick(cycles, &tree, &mut self.irq_pending);
        self.i2c1.tick(cycles, &tree, &mut self.irq_pending);
        self.adc.tick(cycles, &tree, &mut self.irq_pending);
        self.pwm.tick(cycles, &tree, &mut self.irq_pending);
    }

    /// Runs both PIO blocks for `cycles` system clocks and routes their
    /// interrupts.
    pub fn tick_pio(&mut self, cycles: u32)
        ensures
            final(self)@ == old(self)@.after_pio_ticks(cycles),
    {
        reveal(BusState::after_pio_ticks);
        let input: u32 = self.gpio_in;
        self.pio[0].tick(cycles, input);
        self.pio[1].tick(cycles, input);
        if self.pio[0].int0_ints() != 0 {
            self.irq_pending = self.irq_pending | (1u32 << IRQ_PIO0_IRQ_0);
        }
        if self.pio[0].int1_ints() != 0 {
            self.irq_pending = self.irq_pending | (1u32 << IRQ_PIO0_IRQ_1);
        }
        if self.pio[1].int0_ints() != 0 {
            self.irq_pending = self.irq_pending | (1u32 << IRQ_PIO1_IRQ_0);
        }
        if self.pio[1].int1_ints() != 0 {
            self.irq_pending = self.irq_pending | (1u32 << IRQ_PIO1_IRQ_1);
        }
    }

    fn tick_systick_once(&mut self, n: usize)
        requires
            n < 2,
        ensures
            final(self)@ == old(self)@.after_systick_tick(n as int),
    {
        reveal(BusState::after_systick_tick);
        if self.systicks[n].tick() {
            self.ppb[n].icsr = self.ppb[n].icsr | ICSR_PENDSTSET;
        }
    }

    /// Runs one core's SysTick for `count` clocks.
    pub fn tick_systick(&mut self, n: usize, count: u32)
        requires
            n < 2,
        ensures
            final(self)@ == old(self)@.after_systick_ticks(n as int, count as nat),
    {
        let ghost before = self@;
        if !self.systicks[n].is_enabled() {
            proof {
                lemma_stopped_systick_stands_still(before, n as int, count as nat);
            }
            return ;
        }
        let mut done: u32 = 0;
        while done < count
            invariant
                n < 2,
                done <= count,
                self@ == before.after_systick_ticks(n as int, done as nat),
            decreases count - done,
        {
            self.tick_systick_once(n);
            done += 1;
        }
    }

    /// Fires the timer alarms that are due at `cycle`.
    pub fn advance_lazy_scheduled(&mut self, cycle: u64)
        ensures
            final(self)@ == old(self)@.after_alarms(cycle),
    {
        reveal(BusState::after_alarms);
        let lines: u32 = self.timer.poll_alarms(cycle, self.clock_tree.sys_clk_hz);
        self.irq_pending = self.irq_pending | lines;
    }

    /// Hands the raised interrupt lines to both cores.
    pub fn latch_irqs(&mut self)
        ensures
            final(self)@ == old(self)@.irqs_latched(),
    {
        reveal(BusState::irqs_latched);
        let lines: u32 = self.irq_pending & IRQ_MASK;
        self.nvics[0].pending = self.nvics[0].pending | lines;
        self.nvics[1].pending = self.nvics[1].pending | lines;
        self.irq_pending = 0;
    }

    /// Brings the pin inputs up to date.
    pub fn update_gpio(&mut self)
        ensures
            final(self)@ == old(self)@.pins_merged(),
    {
        reveal(BusState::pins_merged);
        let driven: u32 = ((self.sio.gpio_out & self.sio.gpio_oe) | (self.pio[0].pad_out & self.pio[0].pad_oe) | (
        self.pio[1].pad_out & self.pio[1].pad_oe)) & PIN_MASK;
        self.gpio_in = (driven & !self.external_gpio_in_mask) | (self.external_gpio_in_override
            & self.external_gpio_in_mask);
    }
}

impl Default for Bus {
    fn default() -> (bus: Bus)
        ensures
            bus@ == BusState::at_reset(),
    {
        Bus::new()
    }
}

proof fn lemma_stopped_systick_stands_still(b: BusState, n: int, count: nat)
    requires
        0 <= n < 2,
        !b.systicks[n].enabled(),
    ensures
        b.after_systick_ticks(n, count) == b,
    decreases count,
{
    reveal(BusState::after_systick_tick);
    if count > 0 {
        lemma_stopped_systick_stands_still(b, n, (count - 1) as nat);
        assert(spec_array_update(b.systicks, n, b.systicks[n]) =~= b.systicks);
    }
}

/// A pin driven from outside reads as what drives it, whatever the chip
/// drives; every other pin reads as the chip drives it.
pub proof fn law_external_drive_wins(b: BusState)
    ensures
        b.pins_merged().gpio_in & b.external_gpio_in_mask == b.external_gpio_in_override
            & b.external_gpio_in_mask,
        b.pins_merged().gpio_in & !b.external_gpio_in_mask == b.driven_pins() & !b.external_gpio_in_mask,
{
    reveal(BusState::pins_merged);
    let d = b.driven_pins();
    let m = b.external_gpio_in_mask;
    let o = b.external_gpio_in_override;
    lemma_override(d, m, o);
}

proof fn lemma_override(d: u32, m: u32, o: u32)
    ensures
        ((d & !m) | (o & m)) & m == o & m,
        ((d & !m) | (o & m)) & !m == d & !m,
{
    lemma_word_facts(d, m, o);
}

} // verus!
