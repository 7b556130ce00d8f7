//! A PL022 synchronous serial port. With loopback on, each word that enters
//! the transmit queue also enters the receive queue.
use vstd::prelude::*;

use crate::bits::{aliased, apply_alias, lemma_bit_ops, lemma_word_facts};
use crate::clocks::{lemma_periods_add_up, ClockTree};
use crate::fifo::{law_fifo_drops_add_up, Fifo};

verus! {

pub const SSPCR0: u32 = 0x000;
pub const SSPCR1: u32 = 0x004;
pub const SSPDR: u32 = 0x008;
pub const SSPSR: u32 = 0x00C;
pub const SSPCPSR: u32 = 0x010;
pub const SSPIMSC: u32 = 0x014;
pub const SSPRIS: u32 = 0x018;
pub const SSPMIS: u32 = 0x01C;
pub const SSPICR: u32 = 0x020;
pub const SSPDMACR: u32 = 0x024;
pub const SSPPERIPHID3: u32 = 0xFEC;
pub const SSPPCELLID3: u32 = 0xFFC;

pub const SSP_INT_ROR: u32 = 0x1;
pub const SSP_INT_RT: u32 = 0x2;
pub const SSP_INT_RX: u32 = 0x4;
pub const SSP_INT_TX: u32 = 0x8;

/// Entries in each queue.
pub const SSP_FIFO_DEPTH: u8 = 8;

#[derive(Clone, Copy, Debug, PartialEq, Eq)]
pub struct SpiRegs {
    pub cr0: u32,
    pub cr1: u32,
    pub cpsr: u32,
    pub imsc: u32,
    pub ris: u32,
    pub dmacr: u32,
    pub tx: Fifo,
    pub rx: Fifo,
    /// System clocks spent on the word at the head of the transmit queue.
    pub tx_cycles: u64,
    pub irq: u32,
}

pub open spec fn id_word(offset: u32) -> u32 {
    if offset == 0xFE0 {
        0x22
    } else if offset == 0xFE4 {
        0x10
    } else if offset == 0xFE8 {
        0x34
    } else if offset == 0xFF0 {
        0x0D
    } else if offset == 0xFF4 {
        0xF0
    } else if offset == 0xFF8 {
        0x05
    } else if offset == 0xFFC {
        0xB1
    } else {
        0
    }
}

impl SpiRegs {
    pub open spec fn at_reset(irq: u32) -> SpiRegs {
        SpiRegs {
            cr0: 0,
            cr1: 0,
            cpsr: 0,
            imsc: 0,
            ris: 0,
            dmacr: 0,
            tx: Fifo::empty(),
            rx: Fifo::empty(),
            tx_cycles: 0,
            irq,
        }
    }

    pub open spec fn enabled(self) -> bool {
        self.cr1 & 0x2 != 0
    }

    pub open spec fn loopback(self) -> bool {
        self.cr1 & 0x1 != 0
    }

    pub open spec fn frame_bits(self) -> u32 {
        ((self.cr0 & 0xF) + 1) as u32
    }

    /// `val` cut to the frame size.
    pub open spec fn framed(self, val: u32) -> u32 {
        val & (((1u32 << self.frame_bits()) - 1) as u32)
    }

    pub open spec fn status(self) -> u32 {
        (if self.tx.count == 0 { 0x1 } else { 0x10u32 }) | (if self.tx.count < SSP_FIFO_DEPTH {
            0x2
        } else {
            0
        }) | (if self.rx.count > 0 { 0x4 } else { 0 }) | (if self.rx.count >= SSP_FIFO_DEPTH {
            0x8
        } else {
            0
        })
    }

    /// The two level interrupts follow the queues: transmit at or below half
    /// full, receive at or above it.
    pub open spec fn refreshed(self) -> SpiRegs {
        let t = if self.tx.count <= 4 {
            self.ris | SSP_INT_TX
        } else {
            self.ris & !SSP_INT_TX
        };
        let r = if self.rx.count >= 4 {
            t | SSP_INT_RX
        } else {
            t & !SSP_INT_RX
        };
        SpiRegs { ris: r, ..self }
    }

    /// A word offered to the port. With loopback on, one that finds the
    /// receive queue full is an overrun.
    pub open spec fn sent(self, val: u32) -> SpiRegs {
        if !self.enabled() {
            self
        } else {
            let v = self.framed(val);
            let overrun = self.loopback() && self.rx.count >= SSP_FIFO_DEPTH;
            let next = SpiRegs {
                tx: self.tx.pushed(v, SSP_FIFO_DEPTH),
                rx: if self.loopback() && self.tx.count < SSP_FIFO_DEPTH {
                    self.rx.pushed(v, SSP_FIFO_DEPTH)
                } else {
                    self.rx
                },
                ris: if overrun {
                    self.ris | SSP_INT_ROR
                } else {
                    self.ris
                },
                ..self
            };
            next.refreshed()
        }
    }

    /// System clocks per word; a rate below one bit per second counts as
    /// never.
    #[verifier::opaque]
    pub open spec fn clocks_per_word(self, tree: ClockTree) -> nat {
        let prescale = if self.cpsr & 0xFE < 2 {
            2
        } else {
            (self.cpsr & 0xFE) as int
        };
        let rate = tree.peri_clk_hz as int / (prescale * (1 + ((self.cr0 >> 8) & 0xFF)));
        if rate == 0 {
            0xFFFF_FFFF
        } else {
            let n = tree.sys_clk_hz * self.frame_bits() / rate;
            if n == 0 {
                1
            } else {
                n as nat
            }
        }
    }

    pub open spec fn routed(self, irqs: u32) -> u32 {
        if self.ris & self.imsc != 0 && self.irq < 32 {
            irqs | (1u32 << self.irq)
        } else {
            irqs
        }
    }

    pub open spec fn word_at(self, offset: u32) -> u32 {
        if offset == SSPCR0 {
            self.cr0
        } else if offset == SSPCR1 {
            self.cr1
        } else if offset == SSPDR {
            self.rx.front()
        } else if offset == SSPSR {
            self.status()
        } else if offset == SSPCPSR {
            self.cpsr
        } else if offset == SSPIMSC {
            self.imsc
        } else if offset == SSPRIS {
            self.ris
        } else if offset == SSPMIS {
            self.ris & self.imsc
        } else if offset == SSPDMACR {
            self.dmacr
        } else {
            id_word(offset)
        }
    }

    /// Reading the data register takes the oldest received word.
    pub open spec fn after_read(self, offset: u32) -> SpiRegs {
        if offset == SSPDR {
            SpiRegs { rx: self.rx.dropped(1), ..self }
        } else {
            self
        }
    }

    pub open spec fn after_write(self, offset: u32, val: u32, alias: u32) -> SpiRegs {
        if offset == SSPCR0 {
            SpiRegs { cr0: aliased(self.cr0, val, alias) & 0xFFFF, ..self }
        } else if offset == SSPCR1 {
            let cr1 = aliased(self.cr1, val, alias) & 0xF;
            SpiRegs {
                cr1,
                tx_cycles: if cr1 & 0x2 != 0 {
                    self.tx_cycles
                } else {
                    0
                },
                ..self
            }
        } else if offset == SSPDR {
            self.sent(val)
        } else if offset == SSPCPSR {
            SpiRegs { cpsr: aliased(self.cpsr, val, alias) & 0xFE, ..self }
        } else if offset == SSPIMSC {
            SpiRegs { imsc: aliased(self.imsc, val, alias) & 0xF, ..self }
        } else if offset == SSPICR {
            SpiRegs { ris: self.ris & !(aliased(0, val, alias) & 0x3), ..self }
        } else if offset == SSPDMACR {
            SpiRegs { dmacr: aliased(self.dmacr, val, alias) & 0x3, ..self }
        } else {
            self
        }
    }

    pub open spec fn after_tick(self, cycles: u32, tree: ClockTree) -> SpiRegs {
        if cycles == 0 || !self.enabled() {
            self
        } else {
            let per = self.clocks_per_word(tree) as int;
            let total = (self.tx_cycles + cycles) % 0x1_0000_0000_0000_0000;
            let next = if total / per >= self.tx.count {
                SpiRegs { tx: self.tx.dropped(self.tx.count), tx_cycles: 0, ..self }
            } else {
                SpiRegs {
                    tx: self.tx.dropped((total / per) as u8),
                    tx_cycles: (total % per) as u64,
                    ..self
                }
            };
            next.refreshed()
        }
    }

    pub open spec fn routed_by_tick(self, cycles: u32, tree: ClockTree, irqs: u32) -> u32 {
        if cycles == 0 || !self.enabled() {
            irqs
        } else {
            self.after_tick(cycles, tree).routed(irqs)
        }
    }

    pub fn new(irq: u32) -> (s: SpiRegs)
        ensures
            s == SpiRegs::at_reset(irq),
    {
        SpiRegs {
            cr0: 0,
            cr1: 0,
            cpsr: 0,
            imsc: 0,
            ris: 0,
            dmacr: 0,
            tx: Fifo::new(),
            rx: Fifo::new(),
            tx_cycles: 0,
            irq,
        }
    }

    pub fn reset(&mut self)
        ensures
            *final(self) == SpiRegs::at_reset(old(self).irq),
    {
        let irq: u32 = self.irq;
        *self = SpiRegs::new(irq);
    }

    pub fn is_idle(&self) -> (out: bool)
        ensures
            out == (self.tx.count == 0 && self.rx.count == 0 && self.ris == 0),
    {
        self.tx.is_empty() && self.rx.is_empty() && self.ris == 0
    }

    pub fn tx_dreq(&self) -> (out: bool)
        ensures
            out == (self.enabled() && self.tx.count < SSP_FIFO_DEPTH),
    {
        self.cr1 & 0x2 != 0 && self.tx.count < SSP_FIFO_DEPTH
    }

    pub fn rx_dreq(&self) -> (out: bool)
        ensures
            out == (self.enabled() && self.rx.count > 0),
    {
        self.cr1 & 0x2 != 0 && self.rx.count > 0
    }

    fn frame_size(&self) -> (out: u32)
        ensures
            out == self.frame_bits(),
            1 <= out <= 16,
    {
        proof {
            lemma_field_bounds(self.cr0, self.cpsr);
        }
        (self.cr0 & 0xF) + 1
    }

    fn refresh(&mut self)
        ensures
            *final(self) == old(self).refreshed(),
    {
        self.ris = if self.tx.count <= 4 {
            self.ris | SSP_INT_TX
        } else {
            self.ris & !SSP_INT_TX
        };
        self.ris = if self.rx.count >= 4 {
            self.ris | SSP_INT_RX
        } else {
            self.ris & !SSP_INT_RX
        };
    }

    fn send(&mut self, val: u32)
        ensures
            *final(self) == old(self).sent(val),
    {
        if self.cr1 & 0x2 == 0 {
            return;
        }
        let bits: u32 = self.frame_size();
        proof {
            lemma_frame_mask(bits);
        }
        let v: u32 = val & ((1u32 << bits) - 1);
        let loopback = self.cr1 & 0x1 != 0;
        if loopback && self.rx.count >= SSP_FIFO_DEPTH {
            self.ris = self.ris | SSP_INT_ROR;
        }
        if loopback && self.tx.count < SSP_FIFO_DEPTH {
            self.rx.push(v, SSP_FIFO_DEPTH);
        }
        self.tx.push(v, SSP_FIFO_DEPTH);
        self.refresh();
    }

    fn route_irq(&self, irqs: &mut u32)
        ensures
            *final(irqs) == self.routed(*old(irqs)),
    {
        if self.ris & self.imsc != 0 && self.irq < 32 {
            *irqs = *irqs | (1u32 << self.irq);
        }
    }

    fn word_clocks(&self, tree: &ClockTree) -> (out: u64)
        ensures
            out == self.clocks_per_word(*tree),
            out > 0,
    {
        reveal(SpiRegs::clocks_per_word);
        let divider: u32 = self.cpsr & 0xFE;
        let step: u32 = (self.cr0 >> 8) & 0xFF;
        proof {
            lemma_field_bounds(self.cr0, self.cpsr);
        }
        let prescale: u64 = if divider < 2 {
            2
        } else {
            divider as u64
        };
        let scr: u64 = 1 + step as u64;
        assert(2 <= prescale * scr <= 0xFE * 0x100) by (nonlinear_arith)
            requires
                2 <= prescale <= 0xFE,
                1 <= scr <= 0x100,
        ;
        let rate: u64 = tree.peri_clk_hz as u64 / (prescale * scr);
        if rate == 0 {
            return 0xFFFF_FFFF;
        }
        let bits: u64 = self.frame_size() as u64;
        assert(tree.sys_clk_hz as u64 * bits <= 0xFFFF_FFFF * 16) by (nonlinear_arith)
            requires
                tree.sys_clk_hz as u64 <= 0xFFFF_FFFF,
                bits <= 16,
        ;
        let n: u64 = tree.sys_clk_hz as u64 * bits / rate;
        if n == 0 {
            1
        } else {
            n
        }
    }

    pub fn read32(&mut self, offset: u32) -> (out: u32)
        ensures
            out == old(self).word_at(offset),
            *final(self) == old(self).after_read(offset),
    {
        match offset {
            SSPCR0 => self.cr0,
            SSPCR1 => self.cr1,
            SSPDR => {
                let v: u32 = self.rx.peek();
                self.rx.drop_front(1);
                v
            },
            SSPSR => (if self.tx.count == 0 { 0x1 } else { 0x10u32 }) | (if self.tx.count < SSP_FIFO_DEPTH {
                0x2
            } else {
                0
            }) | (if self.rx.count > 0 { 0x4 } else { 0 }) | (if self.rx.count >= SSP_FIFO_DEPTH {
                0x8
            } else {
                0
            }),
            SSPCPSR => self.cpsr,
            SSPIMSC => self.imsc,
            SSPRIS => self.ris,
            SSPMIS => self.ris & self.imsc,
            SSPDMACR => self.dmacr,
            0xFE0 => 0x22,
            0xFE4 => 0x10,
            0xFE8 => 0x34,
            0xFF0 => 0x0D,
            0xFF4 => 0xF0,
            0xFF8 => 0x05,
            0xFFC => 0xB1,
            _ => 0,
        }
    }

    pub fn read8(&mut self, offset: u32) -> (out: u8)
        ensures
            out == (old(self).word_at(offset) % 0x100) as u8,
            *final(self) == old(self).after_read(offset),
    {
        (self.read32(offset) % 0x100) as u8
    }

    pub fn read16(&mut self, offset: u32) -> (out: u16)
        ensures
            out == (old(self).word_at(offset) % 0x1_0000) as u16,
            *final(self) == old(self).after_read(offset),
    {
        (self.read32(offset) % 0x1_0000) as u16
    }

    pub fn write32(&mut self, offset: u32, val: u32, alias: u32, irqs: &mut u32)
        ensures
            *final(self) == old(self).after_write(offset, val, alias),
            *final(irqs) == final(self).routed(*old(irqs)),
    {
        match offset {
            SSPCR0 => {
                self.cr0 = apply_alias(self.cr0, val, alias) & 0xFFFF;
            },
            SSPCR1 => {
                self.cr1 = apply_alias(self.cr1, val, alias) & 0xF;
                if self.cr1 & 0x2 == 0 {
                    self.tx_cycles = 0;
                }
            },
            SSPDR => {
                self.send(val);
            },
            SSPCPSR => {
                self.cpsr = apply_alias(self.cpsr, val, alias) & 0xFE;
            },
            SSPIMSC => {
                self.imsc = apply_alias(self.imsc, val, alias) & 0xF;
            },
            SSPICR => {
                self.ris = self.ris & !(apply_alias(0, val, alias) & 0x3);
            },
            SSPDMACR => {
                self.dmacr = apply_alias(self.dmacr, val, alias) & 0x3;
            },
            _ => {},
        }
        self.route_irq(irqs);
    }

    /// A narrow write reaches the register as a word.
    pub fn write8(&mut self, offset: u32, val: u8, irqs: &mut u32)
        ensures
            *final(self) == old(self).after_write(offset, val as u32, 0),
            *final(irqs) == final(self).routed(*old(irqs)),
    {
        self.write32(offset, val as u32, 0, irqs);
    }

    pub fn write16(&mut self, offset: u32, val: u16, irqs: &mut u32)
        ensures
            *final(self) == old(self).after_write(offset, val as u32, 0),
            *final(irqs) == final(self).routed(*old(irqs)),
    {
        self.write32(offset, val as u32, 0, irqs);
    }

    pub fn tick(&mut self, cycles: u32, tree: &ClockTree, irqs: &mut u32)
        ensures
            *final(self) == old(self).after_tick(cycles, *tree),
            *final(irqs) == old(self).routed_by_tick(cycles, *tree, *old(irqs)),
    {
        if cycles == 0 || self.cr1 & 0x2 == 0 {
            return;
        }
        let per: u64 = self.word_clocks(tree);
        let total: u64 = self.tx_cycles.wrapping_add(cycles as u64);
        let sent: u64 = total / per;
        if sent >= self.tx.count as u64 {
            let all: u8 = self.tx.count;
            self.tx.drop_front(all);
            self.tx_cycles = 0;
        } else {
            self.tx.drop_front(sent as u8);
            self.tx_cycles = total % per;
        }
        self.refresh();
        self.route_irq(irqs);
    }
}

impl Default for SpiRegs {
    fn default() -> (s: SpiRegs)
        ensures
            s == SpiRegs::at_reset(crate::irq::IRQ_SPI0_IRQ),
    {
        SpiRegs::new(crate::irq::IRQ_SPI0_IRQ)
    }
}

proof fn lemma_field_bounds(cr0: u32, cpsr: u32)
    ensures
        cr0 & 0xF <= 0xF,
        (cr0 >> 8) & 0xFF <= 0xFF,
        cpsr & 0xFE <= 0xFE,
{
    lemma_word_facts(cr0, cpsr, 0);
}

proof fn lemma_frame_mask(bits: u32)
    requires
        1 <= bits <= 16,
    ensures
        1u32 << bits >= 1,
{
    lemma_bit_ops(0, 0, 0, bits);
}

/// In loopback with both queues empty, a word written is the word read back,
/// cut to the frame size.
pub proof fn law_loopback_returns_what_was_sent(s: SpiRegs, val: u32)
    requires
        s.enabled(),
        s.loopback(),
        s.tx.count == 0,
        s.rx.count == 0,
    ensures
        s.after_write(SSPDR, val, 0).word_at(SSPDR) == s.framed(val),
        s.after_write(SSPDR, val, 0).after_read(SSPDR).rx.count == 0,
{
}

/// Two ticks of a port are one longer tick.
pub proof fn law_spi_time_adds_up(s: SpiRegs, a: u32, b: u32, tree: ClockTree)
    requires
        a + b <= u32::MAX,
        s.tx_cycles + a + b <= u64::MAX,
    ensures
        s.after_tick(a, tree).after_tick(b, tree) == s.after_tick((a + b) as u32, tree),
{
    if a > 0 && b > 0 && s.enabled() {
        let per = s.clocks_per_word(tree) as int;
        let t = s.tx_cycles + a;
        lemma_clocks_per_word(s, tree);
        assert(s.after_tick(a, tree).clocks_per_word(tree) == per) by {
            reveal(SpiRegs::clocks_per_word);
        }
        lemma_periods_add_up(t, b as int, per);
        vstd::arithmetic::div_mod::lemma_div_pos_is_pos(b as int, per);
        lemma_level_flags(s.ris);
        if t / per >= s.tx.count {
            law_fifo_drops_add_up(s.tx, s.tx.count, 0);
        } else {
            let k = (t / per) as u8;
            let mid = s.tx.dropped(k);
            let more = (t % per + b) / per;
            if more >= mid.count {
                law_fifo_drops_add_up(s.tx, k, mid.count);
            } else {
                law_fifo_drops_add_up(s.tx, k, more as u8);
            }
        }
    }
}

/// Only the last refresh of the two level flags counts.
proof fn lemma_level_flags(x: u32)
    ensures
        ((x | 8) | 4 | 8) | 4 == (x | 8) | 4,
        ((x | 8) & !4u32 | 8) & !4u32 == (x | 8) & !4u32,
        ((x & !8u32) | 4) & !8u32 | 4 == (x & !8u32) | 4,
        ((x & !8u32) & !4u32) & !8u32 & !4u32 == (x & !8u32) & !4u32,
        (((x & !8u32) | 4) | 8) | 4 == (x | 8) | 4,
        (((x & !8u32) & !4u32) | 8) & !4u32 == (x | 8) & !4u32,
{
    lemma_word_facts(x, 0, 0);
}

/// A word takes at least one clock.
proof fn lemma_clocks_per_word(s: SpiRegs, tree: ClockTree)
    ensures
        s.clocks_per_word(tree) > 0,
{
    reveal(SpiRegs::clocks_per_word);
    let prescale = if s.cpsr & 0xFE < 2 {
        2
    } else {
        (s.cpsr & 0xFE) as int
    };
    let scr = ((s.cr0 >> 8) & 0xFF) as int;
    let d = prescale * (1 + scr);
    assert(d > 0) by (nonlinear_arith)
        requires
            d == prescale * (1 + scr),
            prescale >= 2,
            scr >= 0,
    ;
    let rate = tree.peri_clk_hz as int / d;
    vstd::arithmetic::div_mod::lemma_div_pos_is_pos(tree.peri_clk_hz as int, d);
    if rate != 0 {
        assert(tree.sys_clk_hz * s.frame_bits() >= 0) by (nonlinear_arith);
        vstd::arithmetic::div_mod::lemma_div_pos_is_pos(tree.sys_clk_hz * s.frame_bits(), rate);
    }
}

} // verus!
