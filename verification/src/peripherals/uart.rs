//! A PL011 serial port. Nothing drives its receive line, so the receive side
//! reads as permanently empty.
use vstd::prelude::*;

use crate::bits::{aliased, apply_alias, lemma_word_facts};
use crate::clocks::{lemma_periods_add_up, ClockTree};
use crate::fifo::{law_fifo_drops_add_up, Fifo};

verus! {

pub const UARTDR: u32 = 0x000;
pub const UARTRSR_ECR: u32 = 0x004;
pub const UARTFR: u32 = 0x018;
pub const UARTILPR: u32 = 0x020;
pub const UARTIBRD: u32 = 0x024;
pub const UARTFBRD: u32 = 0x028;
pub const UARTLCR_H: u32 = 0x02C;
pub const UARTCR: u32 = 0x030;
pub const UARTIFLS: u32 = 0x034;
pub const UARTIMSC: u32 = 0x038;
pub const UARTRIS: u32 = 0x03C;
pub const UARTMIS: u32 = 0x040;
pub const UARTICR: u32 = 0x044;
pub const UARTDMACR: u32 = 0x048;
pub const UARTPERIPHID3: u32 = 0xFEC;
pub const UARTPCELLID3: u32 = 0xFFC;

pub const UART_INT_RX: u32 = 0x010;
pub const UART_INT_TX: u32 = 0x020;
pub const UART_INT_PE: u32 = 0x100;
pub const UART_INT_BE: u32 = 0x200;
pub const UART_INT_MASK: u32 = 0x7FF;

pub const LCR_H_FEN: u32 = 0x10;

/// The register file, without the record of what was sent.
#[derive(Clone, Copy, Debug, PartialEq, Eq)]
pub struct UartState {
    pub cr: u32,
    pub lcr_h: u32,
    pub ibrd: u32,
    pub fbrd: u32,
    pub ifls: u32,
    pub imsc: u32,
    pub ris: u32,
    pub dmacr: u32,
    pub tx: Fifo,
    /// System clocks spent on the byte at the head of the queue.
    pub tx_cycles: u64,
    pub irq: u32,
}

/// The bytes of the identification registers.
pub open spec fn id_word(offset: u32) -> u32 {
    if offset == 0xFE0 {
        0x11
    } else if offset == 0xFE4 {
        0x10
    } else if offset == 0xFE8 {
        0x34
    } else if offset == 0xFF0 {
        0x0D
    } else if offset == 0xFF4 {
        0xF0
    } else if offset == 0xFF8 {
        0x05
    } else if offset == 0xFFC {
        0xB1
    } else {
        0
    }
}

impl UartState {
    pub open spec fn at_reset(irq: u32) -> UartState {
        UartState {
            cr: 0,
            lcr_h: 0,
            ibrd: 0,
            fbrd: 0,
            ifls: 0x12,
            imsc: 0,
            ris: 0,
            dmacr: 0,
            tx: Fifo::empty(),
            tx_cycles: 0,
            irq,
        }
    }

    /// The port and its transmitter are both on.
    pub open spec fn tx_enabled(self) -> bool {
        self.cr & 0x101 == 0x101
    }

    /// Sixteen entries, or a single holding register with the queues off.
    pub open spec fn capacity(self) -> u8 {
        if self.lcr_h & LCR_H_FEN != 0 {
            16
        } else {
            1
        }
    }

    /// Queue level at or below which the transmit interrupt is raised.
    pub open spec fn tx_threshold(self) -> int {
        let cap = self.capacity() as int;
        let sel = self.ifls & 0x7;
        if sel == 0 {
            cap / 8
        } else if sel == 1 {
            cap / 4
        } else if sel == 3 {
            cap * 3 / 4
        } else if sel == 4 {
            cap * 7 / 8
        } else {
            cap / 2
        }
    }

    pub open spec fn flags(self) -> u32 {
        0x10u32 | (if self.tx.count > 0 { 0x08u32 } else { 0x80u32 }) | (if self.tx.count >= self.capacity() {
            0x20u32
        } else {
            0u32
        })
    }

    /// System clocks per ten-bit frame. An unset divisor sends one byte per
    /// clock; a rate below one bit per second counts as never.
    #[verifier::opaque]
    pub open spec fn clocks_per_byte(self, tree: ClockTree) -> nat {
        if self.ibrd == 0 && self.fbrd == 0 {
            1
        } else {
            let baud = tree.peri_clk_hz * 4 / (self.ibrd * 64 + self.fbrd);
            if baud == 0 {
                0xFFFF_FFFF
            } else {
                let n = tree.sys_clk_hz * 10 / baud;
                if n == 0 {
                    1
                } else {
                    n as nat
                }
            }
        }
    }

    pub open spec fn routed(self, irqs: u32) -> u32 {
        if self.ris & self.imsc != 0 && self.irq < 32 {
            irqs | (1u32 << self.irq)
        } else {
            irqs
        }
    }

    pub open spec fn word_at(self, offset: u32) -> u32 {
        if offset == UARTFR {
            self.flags()
        } else if offset == UARTIBRD {
            self.ibrd
        } else if offset == UARTFBRD {
            self.fbrd
        } else if offset == UARTLCR_H {
            self.lcr_h
        } else if offset == UARTCR {
            self.cr
        } else if offset == UARTIFLS {
            self.ifls
        } else if offset == UARTIMSC {
            self.imsc
        } else if offset == UARTRIS {
            self.ris
        } else if offset == UARTMIS {
            self.ris & self.imsc
        } else if offset == UARTDMACR {
            self.dmacr
        } else {
            id_word(offset)
        }
    }

    /// Turning the queues off keeps only the byte that is being sent.
    pub open spec fn with_lcr_h(self, val: u32) -> UartState {
        let next = UartState { lcr_h: val & 0xFF, ..self };
        if next.lcr_h & LCR_H_FEN == 0 {
            UartState { tx: self.tx.truncated(1), ..next }
        } else {
            next
        }
    }

    pub open spec fn after_write(self, offset: u32, val: u32, alias: u32) -> UartState {
        if offset == UARTDR {
            if self.tx_enabled() {
                UartState { tx: self.tx.pushed(val & 0xFF, self.capacity()), ..self }
            } else {
                self
            }
        } else if offset == UARTIBRD {
            UartState { ibrd: aliased(self.ibrd, val, alias) & 0xFFFF, ..self }
        } else if offset == UARTFBRD {
            UartState { fbrd: aliased(self.fbrd, val, alias) & 0x3F, ..self }
        } else if offset == UARTLCR_H {
            self.with_lcr_h(aliased(self.lcr_h, val, alias))
        } else if offset == UARTCR {
            UartState { cr: aliased(self.cr, val, alias) & 0xFFFF, ..self }
        } else if offset == UARTIFLS {
            UartState { ifls: aliased(self.ifls, val, alias) & 0x3F, ..self }
        } else if offset == UARTIMSC {
            UartState { imsc: aliased(self.imsc, val, alias) & UART_INT_MASK, ..self }
        } else if offset == UARTICR {
            UartState { ris: self.ris & !aliased(0, val, alias), ..self }
        } else if offset == UARTDMACR {
            UartState { dmacr: aliased(self.dmacr, val, alias) & 0x7, ..self }
        } else {
            self
        }
    }

    /// The transmitter is on and has a byte to send.
    pub open spec fn sending(self) -> bool {
        self.tx_enabled() && self.tx.count > 0
    }

    /// `cycles` system clocks: every byte whose time is up leaves, and a
    /// queue at or below its threshold raises the transmit interrupt.
    pub open spec fn after_tick(self, cycles: u32, tree: ClockTree) -> UartState {
        if cycles == 0 || !self.sending() {
            self
        } else {
            let per = self.clocks_per_byte(tree) as int;
            let total = (self.tx_cycles + cycles) % 0x1_0000_0000_0000_0000;
            let next = if total / per >= self.tx.count {
                UartState { tx: self.tx.dropped(self.tx.count), tx_cycles: 0, ..self }
            } else {
                UartState {
                    tx: self.tx.dropped((total / per) as u8),
                    tx_cycles: (total % per) as u64,
                    ..self
                }
            };
            if next.tx.count <= self.tx_threshold() {
                UartState { ris: next.ris | UART_INT_TX, ..next }
            } else {
                next
            }
        }
    }

    fn enabled(&self) -> (out: bool)
        ensures
            out == self.tx_enabled(),
    {
        self.cr & 0x101 == 0x101
    }

    fn cap(&self) -> (out: u8)
        ensures
            out == self.capacity(),
    {
        if self.lcr_h & LCR_H_FEN != 0 {
            16
        } else {
            1
        }
    }

    fn threshold(&self) -> (out: u8)
        ensures
            out == self.tx_threshold(),
    {
        let cap: u8 = self.cap();
        let sel: u32 = self.ifls & 0x7;
        if sel == 0 {
            cap / 8
        } else if sel == 1 {
            cap / 4
        } else if sel == 3 {
            cap * 3 / 4
        } else if sel == 4 {
            cap * 7 / 8
        } else {
            cap / 2
        }
    }

    fn frame_clocks(&self, tree: &ClockTree) -> (out: u64)
        ensures
            out == self.clocks_per_byte(*tree),
            out > 0,
    {
        reveal(UartState::clocks_per_byte);
        if self.ibrd == 0 && self.fbrd == 0 {
            return 1;
        }
        let divisor: u64 = self.ibrd as u64 * 64 + self.fbrd as u64;
        let baud: u64 = tree.peri_clk_hz as u64 * 4 / divisor;
        if baud == 0 {
            return 0xFFFF_FFFF;
        }
        let n: u64 = tree.sys_clk_hz as u64 * 10 / baud;
        if n == 0 {
            1
        } else {
            n
        }
    }

    fn route_irq(&self, irqs: &mut u32)
        ensures
            *final(irqs) == self.routed(*old(irqs)),
    {
        if self.ris & self.imsc != 0 && self.irq < 32 {
            *irqs = *irqs | (1u32 << self.irq);
        }
    }

    fn read(&self, offset: u32) -> (out: u32)
        ensures
            out == self.word_at(offset),
    {
        match offset {
            UARTFR => 0x10u32 | (if self.tx.count > 0 { 0x08u32 } else { 0x80u32 }) | (if self.tx.count >= self.cap() {
                0x20
            } else {
                0
            }),
            UARTIBRD => self.ibrd,
            UARTFBRD => self.fbrd,
            UARTLCR_H => self.lcr_h,
            UARTCR => self.cr,
            UARTIFLS => self.ifls,
            UARTIMSC => self.imsc,
            UARTRIS => self.ris,
            UARTMIS => self.ris & self.imsc,
            UARTDMACR => self.dmacr,
            0xFE0 => 0x11,
            0xFE4 => 0x10,
            0xFE8 => 0x34,
            0xFF0 => 0x0D,
            0xFF4 => 0xF0,
            0xFF8 => 0x05,
            0xFFC => 0xB1,
            _ => 0,
        }
    }

    fn write(&mut self, offset: u32, val: u32, alias: u32)
        ensures
            *final(self) == old(self).after_write(offset, val, alias),
    {
        match offset {
            UARTDR => {
                if self.enabled() {
                    let cap: u8 = self.cap();
                    self.tx.push(val & 0xFF, cap);
                }
            },
            UARTIBRD => {
                self.ibrd = apply_alias(self.ibrd, val, alias) & 0xFFFF;
            },
            UARTFBRD => {
                self.fbrd = apply_alias(self.fbrd, val, alias) & 0x3F;
            },
            UARTLCR_H => {
                self.lcr_h = apply_alias(self.lcr_h, val, alias) & 0xFF;
                if self.lcr_h & LCR_H_FEN == 0 {
                    self.tx.truncate(1);
                }
            },
            UARTCR => {
                self.cr = apply_alias(self.cr, val, alias) & 0xFFFF;
            },
            UARTIFLS => {
                self.ifls = apply_alias(self.ifls, val, alias) & 0x3F;
            },
            UARTIMSC => {
                self.imsc = apply_alias(self.imsc, val, alias) & UART_INT_MASK;
            },
            UARTICR => {
                self.ris = self.ris & !apply_alias(0, val, alias);
            },
            UARTDMACR => {
                self.dmacr = apply_alias(self.dmacr, val, alias) & 0x7;
            },
            _ => {},
        }
    }

    fn drain(&mut self, cycles: u32, tree: &ClockTree)
        requires
            cycles != 0,
            old(self).sending(),
        ensures
            *final(self) == old(self).after_tick(cycles, *tree),
    {
        let per: u64 = self.frame_clocks(tree);
        let threshold: u8 = self.threshold();
        let total: u64 = self.tx_cycles.wrapping_add(cycles as u64);
        let sent: u64 = total / per;
        if sent >= self.tx.count as u64 {
            let all: u8 = self.tx.count;
            self.tx.drop_front(all);
            self.tx_cycles = 0;
        } else {
            self.tx.drop_front(sent as u8);
            self.tx_cycles = total % per;
        }
        if self.tx.count <= threshold {
            self.ris = self.ris | UART_INT_TX;
        }
    }
}

/// A serial port together with the record of every byte handed to it.
pub struct UartRegs {
    pub state: UartState,
    pub tx_log: Vec<u8>,
}

/// What the contracts say of a serial port.
#[verifier::ext_equal]
pub struct UartView {
    pub state: UartState,
    pub tx_log: Seq<u8>,
}

impl View for UartRegs {
    type V = UartView;

    open spec fn view(&self) -> UartView {
        UartView { state: self.state, tx_log: self.tx_log@ }
    }
}

impl UartView {
    pub open spec fn at_reset(irq: u32) -> UartView {
        UartView { state: UartState::at_reset(irq), tx_log: Seq::empty() }
    }

    /// The record grows with each byte written while the transmitter is on,
    /// whether or not the queue had room for it.
    pub open spec fn after_write(self, offset: u32, val: u32, alias: u32) -> UartView {
        UartView {
            state: self.state.after_write(offset, val, alias),
            tx_log: if offset == UARTDR && self.state.tx_enabled() {
                self.tx_log.push((val & 0xFF) as u8)
            } else {
                self.tx_log
            },
        }
    }

    pub open spec fn after_tick(self, cycles: u32, tree: ClockTree) -> UartView {
        UartView { state: self.state.after_tick(cycles, tree), ..self }
    }

    /// A tick routes the interrupt only when there was something to send.
    pub open spec fn routed_by_tick(self, cycles: u32, tree: ClockTree, irqs: u32) -> u32 {
        if cycles == 0 || !self.state.sending() {
            irqs
        } else {
            self.after_tick(cycles, tree).state.routed(irqs)
        }
    }
}

impl UartRegs {
    pub fn new(irq: u32) -> (u: UartRegs)
        ensures
            u@ == UartView::at_reset(irq),
    {
        UartRegs {
            state: UartState {
                cr: 0,
                lcr_h: 0,
                ibrd: 0,
                fbrd: 0,
                ifls: 0x12,
                imsc: 0,
                ris: 0,
                dmacr: 0,
                tx: Fifo::new(),
                tx_cycles: 0,
                irq,
            },
            tx_log: Vec::new(),
        }
    }

    pub fn is_idle(&self) -> (out: bool)
        ensures
            out == (self@.state.tx.count == 0 && self@.state.ris == 0),
    {
        self.state.tx.is_empty() && self.state.ris == 0
    }

    pub fn tx_dreq(&self) -> (out: bool)
        ensures
            out == (self@.state.tx_enabled() && self@.state.tx.count < self@.state.capacity()),
    {
        self.state.enabled() && self.state.tx.count < self.state.cap()
    }

    pub fn rx_dreq(&self) -> (out: bool)
        ensures
            !out,
    {
        false
    }

    pub fn read32(&self, offset: u32) -> (out: u32)
        ensures
            out == self@.state.word_at(offset),
    {
        self.state.read(offset)
    }

    /// The lowest byte of a register.
    pub fn read8(&self, offset: u32) -> (out: u8)
        ensures
            out == (self@.state.word_at(offset) % 0x100) as u8,
    {
        (self.state.read(offset) % 0x100) as u8
    }

    pub fn write32(&mut self, offset: u32, val: u32, alias: u32, irqs: &mut u32)
        ensures
            final(self)@ == old(self)@.after_write(offset, val, alias),
            *final(irqs) == final(self)@.state.routed(*old(irqs)),
    {
        if offset == UARTDR && self.state.enabled() {
            self.tx_log.push((val & 0xFF) as u8);
        }
        self.state.write(offset, val, alias);
        self.state.route_irq(irqs);
    }

    /// A byte write reaches the register as a word.
    pub fn write8(&mut self, offset: u32, val: u8, irqs: &mut u32)
        ensures
            final(self)@ == old(self)@.after_write(offset, val as u32, 0),
            *final(irqs) == final(self)@.state.routed(*old(irqs)),
    {
        self.write32(offset, val as u32, 0, irqs);
    }

    pub fn tick(&mut self, cycles: u32, tree: &ClockTree, irqs: &mut u32)
        ensures
            final(self)@ == old(self)@.after_tick(cycles, *tree),
            *final(irqs) == old(self)@.routed_by_tick(cycles, *tree, *old(irqs)),
    {
        if cycles == 0 || !self.state.enabled() || self.state.tx.is_empty() {
            return;
        }
        self.state.drain(cycles, tree);
        self.state.route_irq(irqs);
    }

    /// Takes the record of bytes handed to the port.
    pub fn drain_tx_log(&mut self) -> (log: Vec<u8>)
        ensures
            log@ == old(self)@.tx_log,
            final(self)@ == (UartView { tx_log: Seq::empty(), ..old(self)@ }),
    {
        let mut log: Vec<u8> = Vec::new();
        log.append(&mut self.tx_log);
        log
    }

    pub fn reset(&mut self)
        ensures
            final(self)@ == UartView::at_reset(old(self)@.state.irq),
    {
        let irq: u32 = self.state.irq;
        *self = UartRegs::new(irq);
    }
}

impl Default for UartRegs {
    fn default() -> (u: UartRegs)
        ensures
            u@ == UartView::at_reset(crate::irq::IRQ_UART0_IRQ),
    {
        UartRegs::new(crate::irq::IRQ_UART0_IRQ)
    }
}

/// Two ticks of a port are one longer tick.
pub proof fn law_uart_time_adds_up(u: UartState, a: u32, b: u32, tree: ClockTree)
    requires
        a + b <= u32::MAX,
        u.tx_cycles + a + b <= u64::MAX,
    ensures
        u.after_tick(a, tree).after_tick(b, tree) == u.after_tick((a + b) as u32, tree),
{
    if a > 0 && b > 0 && u.sending() {
        let per = u.clocks_per_byte(tree) as int;
        let t = u.tx_cycles + a;
        lemma_clocks_per_byte(u, tree);
        assert(u.after_tick(a, tree).clocks_per_byte(tree) == per) by {
            reveal(UartState::clocks_per_byte);
        }
        lemma_periods_add_up(t, b as int, per);
        lemma_set_twice(u.ris);
        if t / per < u.tx.count {
            let k = (t / per) as u8;
            let mid = u.tx.dropped(k);
            let more = (t % per + b) / per;
            if more >= mid.count {
                law_fifo_drops_add_up(u.tx, k, mid.count);
            } else {
                law_fifo_drops_add_up(u.tx, k, more as u8);
            }
        }
    }
}

proof fn lemma_set_twice(x: u32)
    ensures
        (x | 0x020) | 0x020 == x | 0x020,
{
    lemma_word_facts(x, 0, 0);
}

/// A byte takes at least one clock.
proof fn lemma_clocks_per_byte(u: UartState, tree: ClockTree)
    ensures
        u.clocks_per_byte(tree) > 0,
{
    reveal(UartState::clocks_per_byte);
    if u.ibrd != 0 || u.fbrd != 0 {
        let d = u.ibrd * 64 + u.fbrd;
        let baud = tree.peri_clk_hz * 4 / d;
        vstd::arithmetic::div_mod::lemma_div_pos_is_pos(tree.peri_clk_hz * 4, d);
        if baud != 0 {
            vstd::arithmetic::div_mod::lemma_div_pos_is_pos(tree.sys_clk_hz * 10, baud);
        }
    }
}

} // verus!
