//! The analogue-to-digital converter. A conversion takes 96 clocks of the
//! fixed 48 MHz converter clock; its sample carries the channel and a running
//! count in place of a voltage.
use vstd::prelude::*;

use crate::bits::{aliased, apply_alias, lemma_word_facts};
use crate::clocks::{lemma_periods_add_up, ClockTree};
use crate::fifo::Fifo;

verus! {

pub const CS: u32 = 0x00;
pub const RESULT: u32 = 0x04;
pub const FCS: u32 = 0x08;
pub const FIFO: u32 = 0x0C;
pub const DIV: u32 = 0x10;
pub const INTR: u32 = 0x14;
pub const INTE: u32 = 0x18;
pub const INTF: u32 = 0x1C;
pub const INTS: u32 = 0x20;

pub const CS_EN: u32 = 0x001;
pub const CS_START_ONCE: u32 = 0x004;
pub const CS_START_MANY: u32 = 0x008;
pub const CS_READY: u32 = 0x100;

pub const FCS_EN: u32 = 0x001;
pub const FCS_SHIFT: u32 = 0x002;
pub const FCS_DREQ_EN: u32 = 0x008;
pub const FCS_EMPTY: u32 = 0x100;
pub const FCS_FULL: u32 = 0x200;
pub const FCS_UNDER: u32 = 0x400;
pub const FCS_OVER: u32 = 0x800;

pub const INTR_FIFO: u32 = 0x1;

pub const ADC_FIFO_DEPTH: usize = 4;
pub const ADC_HZ: u64 = 48_000_000;
pub const CONVERSION_CLOCKS: u64 = 96;

/// The stored bits of the control word; the ready bit is kept apart.
pub const CS_STORED: u32 = 0x001F_700F;
pub const FCS_STORED: u32 = 0x0F00_000F;

#[derive(Clone, Copy, Debug, PartialEq, Eq)]
pub struct AdcRegs {
    pub cs: u32,
    pub ready: bool,
    pub result: u32,
    pub fcs: u32,
    pub under: bool,
    pub over: bool,
    pub div: u32,
    pub inte: u32,
    pub intf: u32,
    pub samples: Fifo,
    /// Converter clocks left of the conversion in flight.
    pub remaining: Option<u64>,
    /// Fraction of a converter clock, in units of one over the system clock.
    pub phase: u64,
    pub converted: u32,
    pub irq: u32,
}

impl AdcRegs {
    pub open spec fn at_reset(irq: u32) -> AdcRegs {
        AdcRegs {
            cs: 0,
            ready: false,
            result: 0,
            fcs: 0,
            under: false,
            over: false,
            div: 0,
            inte: 0,
            intf: 0,
            samples: Fifo::empty(),
            remaining: None,
            phase: 0,
            converted: 0,
            irq,
        }
    }

    pub open spec fn threshold(self) -> u32 {
        (self.fcs >> 24) & 0xF
    }

    /// The queue interrupt: enabled, with a threshold, and filled to it.
    pub open spec fn intr(self) -> u32 {
        if self.fcs & FCS_EN != 0 && self.threshold() != 0 && self.samples.count >= self.threshold() {
            INTR_FIFO
        } else {
            0
        }
    }

    pub open spec fn ints(self) -> u32 {
        (self.intr() | self.intf) & self.inte
    }

    pub open spec fn wants_dma(self) -> bool {
        self.fcs & FCS_EN != 0 && self.fcs & FCS_DREQ_EN != 0 && self.samples.count > 0
            && self.samples.count >= self.threshold()
    }

    /// The sample that the selected channel yields now.
    pub open spec fn sample(self) -> u32 {
        (((self.cs >> 12) & 0x7) << 8) | (self.converted & 0xFF)
    }

    /// A conversion begins when it is asked for and none is in flight.
    pub open spec fn maybe_started(self) -> AdcRegs {
        if self.cs & CS_EN != 0 && self.cs & (CS_START_ONCE | CS_START_MANY) != 0 && self.remaining is None {
            AdcRegs { remaining: Some(CONVERSION_CLOCKS), ready: false, ..self }
        } else {
            self
        }
    }

    /// A conversion ends: its sample is the result and joins the queue, a
    /// full queue loses it, and a single-shot request is spent.
    pub open spec fn completed(self) -> AdcRegs {
        let queued = self.fcs & FCS_EN != 0;
        AdcRegs {
            result: self.sample(),
            converted: ((self.converted + 1) % 0x1_0000_0000) as u32,
            samples: if queued {
                self.samples.pushed(self.sample(), 4)
            } else {
                self.samples
            },
            over: self.over || (queued && self.samples.count >= 4),
            ready: true,
            cs: self.cs & !CS_START_ONCE,
            remaining: None,
            ..self
        }
    }

    /// `clocks` converter clocks.
    pub open spec fn converting(self, clocks: nat) -> AdcRegs
        decreases clocks,
    {
        match self.remaining {
            None => self,
            Some(left) => if left > clocks {
                AdcRegs { remaining: Some((left - clocks) as u64), ..self }
            } else if clocks == 0 {
                self
            } else {
                self.completed().maybe_started().converting(
                    (clocks - (if left == 0 {
                        1
                    } else {
                        left as int
                    })) as nat,
                )
            },
        }
    }

    pub open spec fn fcs_word(self) -> u32 {
        self.fcs | (if self.samples.count == 0 { FCS_EMPTY } else { 0 }) | (if self.samples.count >= 4 {
            FCS_FULL
        } else {
            0
        }) | (if self.under { FCS_UNDER } else { 0 }) | (if self.over { FCS_OVER } else { 0 }) | ((
        self.samples.count as u32) << 16)
    }

    pub open spec fn word_at(self, offset: u32) -> u32 {
        if offset == CS {
            if self.ready {
                self.cs | CS_READY
            } else {
                self.cs
            }
        } else if offset == RESULT {
            self.result
        } else if offset == FCS {
            self.fcs_word()
        } else if offset == FIFO {
            if self.fcs & FCS_SHIFT != 0 {
                self.samples.front() >> 4
            } else {
                self.samples.front()
            }
        } else if offset == DIV {
            self.div
        } else if offset == INTR {
            self.intr()
        } else if offset == INTE {
            self.inte
        } else if offset == INTF {
            self.intf
        } else if offset == INTS {
            self.ints()
        } else {
            0
        }
    }

    /// Reading the queue takes a sample; reading it empty is an underrun.
    pub open spec fn after_read(self, offset: u32) -> AdcRegs {
        if offset == FIFO {
            AdcRegs { samples: self.samples.dropped(1), under: self.under || self.samples.count == 0, ..self }
        } else {
            self
        }
    }

    pub open spec fn with_cs(self, cs: u32) -> AdcRegs {
        if self.cs & CS_EN == 0 && cs & CS_EN != 0 {
            AdcRegs { cs, ready: true, ..self }
        } else if self.cs & CS_EN != 0 && cs & CS_EN == 0 {
            AdcRegs { cs, ready: false, remaining: None, ..self }
        } else {
            AdcRegs { cs, ..self }
        }
    }

    /// The plain and bitset ports clear the sticky bits that are written as
    /// one; turning the queue off empties it.
    pub open spec fn with_fcs(self, val: u32, alias: u32) -> AdcRegs {
        let fcs = aliased(self.fcs, val, alias) & FCS_STORED;
        let w1c = alias == 0 || alias == 2;
        AdcRegs {
            fcs,
            under: self.under && !(w1c && val & FCS_UNDER != 0),
            over: self.over && !(w1c && val & FCS_OVER != 0),
            samples: if fcs & FCS_EN != 0 {
                self.samples
            } else {
                self.samples.truncated(0)
            },
            ..self
        }
    }

    pub open spec fn after_write(self, offset: u32, val: u32, alias: u32) -> AdcRegs {
        if offset == CS {
            self.with_cs(aliased(self.cs, val, alias) & CS_STORED).maybe_started()
        } else if offset == FCS {
            self.with_fcs(val, alias)
        } else if offset == DIV {
            AdcRegs { div: aliased(self.div, val, alias) & 0x00FF_FFFF, ..self }
        } else if offset == INTE {
            AdcRegs { inte: aliased(self.inte, val, alias) & INTR_FIFO, ..self }
        } else if offset == INTF {
            AdcRegs { intf: aliased(self.intf, val, alias) & INTR_FIFO, ..self }
        } else {
            self
        }
    }

    pub open spec fn busy(self) -> bool {
        self.remaining is Some
    }

    /// `cycles` system clocks, turned into converter clocks with the
    /// fraction carried over.
    pub open spec fn after_tick(self, cycles: u32, tree: ClockTree) -> AdcRegs {
        if cycles == 0 || !self.busy() {
            self
        } else {
            let hz = if tree.sys_clk_hz == 0 {
                1
            } else {
                tree.sys_clk_hz as int
            };
            let total = (self.phase + (cycles * ADC_HZ)) % 0x1_0000_0000_0000_0000;
            AdcRegs { phase: (total % hz) as u64, ..self }.converting((total / hz) as nat)
        }
    }

    pub open spec fn routed(self, irqs: u32) -> u32 {
        if self.ints() != 0 && self.irq < 32 {
            irqs | (1u32 << self.irq)
        } else {
            irqs
        }
    }

    pub fn new(irq: u32) -> (a: AdcRegs)
        ensures
            a == AdcRegs::at_reset(irq),
    {
        AdcRegs {
            cs: 0,
            ready: false,
            result: 0,
            fcs: 0,
            under: false,
            over: false,
            div: 0,
            inte: 0,
            intf: 0,
            samples: Fifo::new(),
            remaining: None,
            phase: 0,
            converted: 0,
            irq,
        }
    }

    pub fn fifo_len(&self) -> (n: usize)
        ensures
            n == self.samples.count,
    {
        self.samples.count as usize
    }

    fn intr_word(&self) -> (out: u32)
        ensures
            out == self.intr(),
    {
        let threshold: u32 = (self.fcs >> 24) & 0xF;
        if self.fcs & FCS_EN != 0 && threshold != 0 && self.samples.count as u32 >= threshold {
            INTR_FIFO
        } else {
            0
        }
    }

    pub fn is_idle(&self) -> (out: bool)
        ensures
            out == (!self.busy() && self.ints() == 0),
    {
        self.remaining.is_none() && (self.intr_word() | self.intf) & self.inte == 0
    }

    pub fn dreq(&self) -> (out: bool)
        ensures
            out == self.wants_dma(),
    {
        let threshold: u32 = (self.fcs >> 24) & 0xF;
        self.fcs & FCS_EN != 0 && self.fcs & FCS_DREQ_EN != 0 && self.samples.count > 0
            && self.samples.count as u32 >= threshold
    }

    fn maybe_start(&mut self)
        ensures
            *final(self) == old(self).maybe_started(),
    {
        if self.cs & CS_EN != 0 && self.cs & (CS_START_ONCE | CS_START_MANY) != 0 && self.remaining.is_none() {
            self.remaining = Some(CONVERSION_CLOCKS);
            self.ready = false;
        }
    }

    fn complete(&mut self)
        ensures
            *final(self) == old(self).completed(),
    {
        let sample: u32 = (((self.cs >> 12) & 0x7) << 8) | (self.converted & 0xFF);
        self.result = sample;
        self.converted = self.converted.wrapping_add(1);
        if self.fcs & FCS_EN != 0 {
            if self.samples.count >= 4 {
                self.over = true;
            }
            self.samples.push(sample, 4);
        }
        self.ready = true;
        self.cs = self.cs & !CS_START_ONCE;
        self.remaining = None;
    }

    fn convert(&mut self, clocks: u64)
        ensures
            *final(self) == old(self).converting(clocks as nat),
    {
        let ghost goal = self.converting(clocks as nat);
        let mut clocks: u64 = clocks;
        while clocks > 0
            invariant_except_break
                self.converting(clocks as nat) == goal,
            ensures
                *self == goal,
            decreases clocks,
        {
            match self.remaining {
                None => {
                    break;
                },
                Some(left) => {
                    if left > clocks {
                        self.remaining = Some(left - clocks);
                        break;
                    }
                    self.complete();
                    self.maybe_start();
                    clocks = clocks - (if left == 0 {
                        1
                    } else {
                        left
                    });
                },
            }
        }
    }

    fn route_irq(&self, irqs: &mut u32)
        ensures
            *final(irqs) == self.routed(*old(irqs)),
    {
        if (self.intr_word() | self.intf) & self.inte != 0 && self.irq < 32 {
            *irqs = *irqs | (1u32 << self.irq);
        }
    }

    pub fn read32(&mut self, offset: u32) -> (out: u32)
        ensures
            out == old(self).word_at(offset),
            *final(self) == old(self).after_read(offset),
    {
        match offset {
            CS => if self.ready {
                self.cs | CS_READY
            } else {
                self.cs
            },
            RESULT => self.result,
            FCS => self.fcs | (if self.samples.count == 0 { FCS_EMPTY } else { 0 }) | (if self.samples.count >= 4 {
                FCS_FULL
            } else {
                0
            }) | (if self.under { FCS_UNDER } else { 0 }) | (if self.over { FCS_OVER } else { 0 }) | ((
            self.samples.count as u32) << 16),
            FIFO => {
                let v: u32 = self.samples.peek();
                if self.samples.is_empty() {
                    self.under = true;
                }
                self.samples.drop_front(1);
                if self.fcs & FCS_SHIFT != 0 {
                    v >> 4
                } else {
                    v
                }
            },
            DIV => self.div,
            INTR => self.intr_word(),
            INTE => self.inte,
            INTF => self.intf,
            INTS => (self.intr_word() | self.intf) & self.inte,
            _ => 0,
        }
    }

    pub fn read16(&mut self, offset: u32) -> (out: u16)
        ensures
            out == (old(self).word_at(offset) % 0x1_0000) as u16,
            *final(self) == old(self).after_read(offset),
    {
        (self.read32(offset) % 0x1_0000) as u16
    }

    pub fn write32(&mut self, offset: u32, val: u32, alias: u32, irqs: &mut u32)
        ensures
            *final(self) == old(self).after_write(offset, val, alias),
            *final(irqs) == final(self).routed(*old(irqs)),
    {
        match offset {
            CS => {
                let was_on = self.cs & CS_EN != 0;
                self.cs = apply_alias(self.cs, val, alias) & CS_STORED;
                let now_on = self.cs & CS_EN != 0;
                if !was_on && now_on {
                    self.ready = true;
                } else if was_on && !now_on {
                    self.ready = false;
                    self.remaining = None;
                }
                self.maybe_start();
            },
            FCS => {
                self.fcs = apply_alias(self.fcs, val, alias) & FCS_STORED;
                if alias == 0 || alias == 2 {
                    if val & FCS_UNDER != 0 {
                        self.under = false;
                    }
                    if val & FCS_OVER != 0 {
                        self.over = false;
                    }
                }
                if self.fcs & FCS_EN == 0 {
                    self.samples.truncate(0);
                }
            },
            DIV => {
                self.div = apply_alias(self.div, val, alias) & 0x00FF_FFFF;
            },
            INTE => {
                self.inte = apply_alias(self.inte, val, alias) & INTR_FIFO;
            },
            INTF => {
                self.intf = apply_alias(self.intf, val, alias) & INTR_FIFO;
            },
            _ => {},
        }
        self.route_irq(irqs);
    }

    pub fn tick(&mut self, cycles: u32, tree: &ClockTree, irqs: &mut u32)
        ensures
            *final(self) == old(self).after_tick(cycles, *tree),
            *final(irqs) == final(self).routed(*old(irqs)),
    {
        if cycles != 0 && self.remaining.is_some() {
            let hz: u64 = if tree.sys_clk_hz == 0 {
                1
            } else {
                tree.sys_clk_hz as u64
            };
            let total: u64 = self.phase.wrapping_add(cycles as u64 * ADC_HZ);
            self.phase = total % hz;
            self.convert(total / hz);
        }
        self.route_irq(irqs);
    }
}

impl Default for AdcRegs {
    fn default() -> (a: AdcRegs)
        ensures
            a == AdcRegs::at_reset(crate::irq::IRQ_ADC_IRQ_FIFO),
    {
        AdcRegs::new(crate::irq::IRQ_ADC_IRQ_FIFO)
    }
}

/// A single-shot conversion yields exactly one sample however long the
/// converter is clocked after it ends.
pub proof fn law_single_shot_converts_once(a: AdcRegs, clocks: nat)
    requires
        a.remaining matches Some(left) && 0 < left <= clocks,
        a.cs & CS_START_MANY == 0,
    ensures
        a.converting(clocks) == a.completed(),
{
    let cs = a.cs;
    lemma_word_facts(cs, 0, 0);
    let left = a.remaining->0;
    assert(a.completed().maybe_started() == a.completed());
    assert(a.completed().converting((clocks - left) as nat) == a.completed());
}

/// Converter clocks add up, whatever ends and begins among them.
pub proof fn law_converter_clocks_add_up(a: AdcRegs, m: nat, n: nat)
    ensures
        a.converting(m).converting(n) == a.converting(m + n),
    decreases m,
{
    match a.remaining {
        None => {},
        Some(left) => {
            if m > 0 && left <= m {
                let rest = (m - (if left == 0 {
                    1
                } else {
                    left as int
                })) as nat;
                let next = a.completed().maybe_started();
                law_converter_clocks_add_up(next, rest, n);
                assert(a.converting(m) == next.converting(rest));
                assert(a.converting(m + n) == next.converting(rest + n));
            }
        },
    }
}

/// The carried fraction plays no part in a conversion.
proof fn lemma_phase_rides_along(a: AdcRegs, phase: u64, n: nat)
    ensures
        (AdcRegs { phase, ..a }).converting(n) == (AdcRegs { phase, ..a.converting(n) }),
    decreases n,
{
    let b = AdcRegs { phase, ..a };
    match a.remaining {
        None => {},
        Some(left) => {
            if n > 0 && left <= n {
                let rest = (n - (if left == 0 {
                    1
                } else {
                    left as int
                })) as nat;
                let next = a.completed().maybe_started();
                assert(b.completed().maybe_started() == (AdcRegs { phase, ..next }));
                lemma_phase_rides_along(next, phase, rest);
            }
        },
    }
}

/// Two ticks of the converter are one longer tick, as long as it is still at
/// work after the first.
pub proof fn law_adc_time_adds_up(a: AdcRegs, x: u32, y: u32, tree: ClockTree)
    requires
        x + y <= u32::MAX,
        a.phase + (x + y) * ADC_HZ <= u64::MAX,
        a.busy(),
        a.after_tick(x, tree).busy(),
    ensures
        a.after_tick(x, tree).after_tick(y, tree) == a.after_tick((x + y) as u32, tree),
{
    let hz = if tree.sys_clk_hz == 0 {
        1
    } else {
        tree.sys_clk_hz as int
    };
    let t = a.phase + x * ADC_HZ;
    let d = y * ADC_HZ;
    lemma_periods_add_up(t, d, hz);
    assert(t + d == a.phase + (x + y) * ADC_HZ);
    if x > 0 && y > 0 {
        let n1 = (t / hz) as nat;
        let n2 = ((t % hz + d) / hz) as nat;
        let p1 = (t % hz) as u64;
        let p2 = ((t + d) % hz) as u64;
        lemma_phase_rides_along(a, p1, n1);
        lemma_phase_rides_along(a, p2, n1 + n2);
        lemma_phase_rides_along(a.converting(n1), p2, n2);
        law_converter_clocks_add_up(a, n1, n2);
        assert(a.after_tick(x, tree) == (AdcRegs { phase: p1, ..a.converting(n1) }));
    }
}

} // verus!
