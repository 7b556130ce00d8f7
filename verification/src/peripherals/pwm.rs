//! The pulse-width modulator: eight free-running slices.
use vstd::array::{spec_array_fill_for_copy_type, spec_array_update};
use vstd::prelude::*;

use crate::bits::{aliased, apply_alias, bit, lemma_set_clear_bit};
use crate::clocks::{lemma_periods_add_up, ClockTree};

verus! {

pub const PWM_SLICE_COUNT: usize = 8;
pub const SLICE_STRIDE: u32 = 0x14;
pub const CSR_EN: u32 = 0x1;
pub const EN: u32 = 0xA0;
pub const INTR: u32 = 0xA4;
pub const INTE: u32 = 0xA8;
pub const INTF: u32 = 0xAC;
pub const INTS: u32 = 0xB0;

#[derive(Clone, Copy, Debug, PartialEq, Eq, Structural)]
pub struct PwmSlice {
    pub csr: u32,
    pub div: u32,
    pub ctr: u32,
    pub cc: u32,
    pub top: u32,
}

impl PwmSlice {
    pub open spec fn at_reset() -> PwmSlice {
        PwmSlice { csr: 0, div: 0x10, ctr: 0, cc: 0, top: 0xFFFF }
    }

    pub open spec fn enabled(self) -> bool {
        self.csr & CSR_EN != 0
    }

    /// The counter passes its top within `cycles` clocks.
    pub open spec fn wraps(self, cycles: u32) -> bool {
        self.enabled() && self.ctr + cycles > self.top
    }

    /// An enabled counter runs modulo its top plus one.
    pub open spec fn after_cycles(self, cycles: u32) -> PwmSlice {
        if self.enabled() {
            PwmSlice { ctr: ((self.ctr + cycles) % (self.top + 1)) as u32, ..self }
        } else {
            self
        }
    }

    pub open spec fn word_at(self, inner: u32) -> u32 {
        if inner == 0x00 {
            self.csr
        } else if inner == 0x04 {
            self.div
        } else if inner == 0x08 {
            self.ctr
        } else if inner == 0x0C {
            self.cc
        } else if inner == 0x10 {
            self.top
        } else {
            0
        }
    }

    /// The two phase-adjust bits of the control word are pulses and are
    /// never stored.
    pub open spec fn after_write(self, inner: u32, val: u32, alias: u32) -> PwmSlice {
        if inner == 0x00 {
            PwmSlice { csr: aliased(self.csr, val, alias) & 0x3F, ..self }
        } else if inner == 0x04 {
            PwmSlice { div: aliased(self.div, val, alias) & 0xFFF, ..self }
        } else if inner == 0x08 {
            PwmSlice { ctr: aliased(self.ctr, val, alias) & 0xFFFF, ..self }
        } else if inner == 0x0C {
            PwmSlice { cc: aliased(self.cc, val, alias), ..self }
        } else if inner == 0x10 {
            PwmSlice { top: aliased(self.top, val, alias) & 0xFFFF, ..self }
        } else {
            self
        }
    }

    pub open spec fn with_enable(self, on: bool) -> PwmSlice {
        PwmSlice {
            csr: if on {
                self.csr | CSR_EN
            } else {
                self.csr & !CSR_EN
            },
            ..self
        }
    }

    pub fn new() -> (s: PwmSlice)
        ensures
            s == PwmSlice::at_reset(),
    {
        PwmSlice { csr: 0, div: 0x10, ctr: 0, cc: 0, top: 0xFFFF }
    }

    fn read32(&self, inner: u32) -> (out: u32)
        ensures
            out == self.word_at(inner),
    {
        if inner == 0x00 {
            self.csr
        } else if inner == 0x04 {
            self.div
        } else if inner == 0x08 {
            self.ctr
        } else if inner == 0x0C {
            self.cc
        } else if inner == 0x10 {
            self.top
        } else {
            0
        }
    }

    fn write32(&mut self, inner: u32, val: u32, alias: u32)
        ensures
            *final(self) == old(self).after_write(inner, val, alias),
    {
        if inner == 0x00 {
            self.csr = apply_alias(self.csr, val, alias) & 0x3F;
        } else if inner == 0x04 {
            self.div = apply_alias(self.div, val, alias) & 0xFFF;
        } else if inner == 0x08 {
            self.ctr = apply_alias(self.ctr, val, alias) & 0xFFFF;
        } else if inner == 0x0C {
            self.cc = apply_alias(self.cc, val, alias);
        } else if inner == 0x10 {
            self.top = apply_alias(self.top, val, alias) & 0xFFFF;
        }
    }

    /// Runs the counter and says whether it wrapped.
    fn run(&mut self, cycles: u32) -> (wrapped: bool)
        ensures
            *final(self) == old(self).after_cycles(cycles),
            wrapped == old(self).wraps(cycles),
    {
        if self.csr & CSR_EN == 0 {
            return false;
        }
        let pos: u64 = self.ctr as u64 + cycles as u64;
        let period: u64 = self.top as u64 + 1;
        self.ctr = (pos % period) as u32;
        pos > self.top as u64
    }
}

impl Default for PwmSlice {
    fn default() -> (s: PwmSlice)
        ensures
            s == PwmSlice::at_reset(),
    {
        PwmSlice::new()
    }
}

#[derive(Clone, Copy, Debug, PartialEq, Eq)]
pub struct PwmRegs {
    pub slices: [PwmSlice; 8],
    pub intr: u32,
    pub inte: u32,
    pub intf: u32,
    pub irq: u32,
}

impl PwmRegs {
    pub open spec fn at_reset(irq: u32) -> PwmRegs {
        PwmRegs {
            slices: spec_array_fill_for_copy_type::<PwmSlice, 8>(PwmSlice::at_reset()),
            intr: 0,
            inte: 0,
            intf: 0,
            irq,
        }
    }

    /// One bit for each enabled slice below `n`.
    pub open spec fn en_view_upto(self, n: nat) -> u32
        decreases n,
    {
        if n == 0 {
            0
        } else {
            self.en_view_upto((n - 1) as nat) | (if self.slices[n - 1].enabled() {
                1u32 << ((n - 1) as u32)
            } else {
                0
            })
        }
    }

    /// The slices below `n` enabled or disabled as `mask` says.
    pub open spec fn with_enables_upto(self, n: nat, mask: u32) -> PwmRegs
        decreases n,
    {
        if n == 0 {
            self
        } else {
            let p = self.with_enables_upto((n - 1) as nat, mask);
            PwmRegs {
                slices: spec_array_update(p.slices, n - 1, p.slices[n - 1].with_enable(bit(mask, n - 1))),
                ..p
            }
        }
    }

    /// The slices below `n` run for `cycles` clocks, each wrap latched.
    pub open spec fn run_upto(self, n: nat, cycles: u32) -> PwmRegs
        decreases n,
    {
        if n == 0 {
            self
        } else {
            let p = self.run_upto((n - 1) as nat, cycles);
            PwmRegs {
                slices: spec_array_update(p.slices, n - 1, p.slices[n - 1].after_cycles(cycles)),
                intr: if p.slices[n - 1].wraps(cycles) {
                    p.intr | (1u32 << ((n - 1) as u32))
                } else {
                    p.intr
                },
                ..p
            }
        }
    }

    pub open spec fn ints(self) -> u32 {
        (self.intr | self.intf) & self.inte
    }

    /// The interrupt bitmap with this block's line added while it asserts.
    pub open spec fn routed(self, irqs: u32) -> u32 {
        if self.ints() != 0 && self.irq < 32 {
            irqs | (1u32 << self.irq)
        } else {
            irqs
        }
    }

    pub open spec fn word_at(self, offset: u32) -> u32 {
        if offset < EN {
            self.slices[(offset / SLICE_STRIDE) as int].word_at(offset % SLICE_STRIDE)
        } else if offset == EN {
            self.en_view_upto(8)
        } else if offset == INTR {
            self.intr
        } else if offset == INTE {
            self.inte
        } else if offset == INTF {
            self.intf
        } else if offset == INTS {
            self.ints()
        } else {
            0
        }
    }

    pub open spec fn after_write(self, offset: u32, val: u32, alias: u32) -> PwmRegs {
        if offset < EN {
            let n = (offset / SLICE_STRIDE) as int;
            PwmRegs {
                slices: spec_array_update(
                    self.slices,
                    n,
                    self.slices[n].after_write(offset % SLICE_STRIDE, val, alias),
                ),
                ..self
            }
        } else if offset == EN {
            self.with_enables_upto(8, aliased(self.en_view_upto(8), val, alias))
        } else if offset == INTR {
            PwmRegs { intr: self.intr & !val, ..self }
        } else if offset == INTE {
            PwmRegs { inte: aliased(self.inte, val, alias) & 0xFF, ..self }
        } else if offset == INTF {
            PwmRegs { intf: aliased(self.intf, val, alias) & 0xFF, ..self }
        } else {
            self
        }
    }

    pub fn new(irq: u32) -> (p: PwmRegs)
        ensures
            p == PwmRegs::at_reset(irq),
    {
        PwmRegs { slices: [PwmSlice::new();8], intr: 0, inte: 0, intf: 0, irq }
    }

    fn en_view(&self) -> (out: u32)
        ensures
            out == self.en_view_upto(8),
    {
        let mut mask: u32 = 0;
        let mut n: usize = 0;
        while n < 8
            invariant
                n <= 8,
                mask == self.en_view_upto(n as nat),
            decreases 8 - n,
        {
            mask = mask | (if self.slices[n].csr & CSR_EN != 0 {
                1u32 << (n as u32)
            } else {
                0
            });
            n += 1;
        }
        mask
    }

    fn set_enables(&mut self, mask: u32)
        ensures
            *final(self) == old(self).with_enables_upto(8, mask),
    {
        let ghost before = *self;
        let mut n: usize = 0;
        while n < 8
            invariant
                n <= 8,
                *self == before.with_enables_upto(n as nat, mask),
            decreases 8 - n,
        {
            let on = (mask >> (n as u32)) & 1 == 1;
            let csr: u32 = self.slices[n].csr;
            self.slices[n].csr = if on {
                csr | CSR_EN
            } else {
                csr & !CSR_EN
            };
            n += 1;
        }
    }

    pub fn is_idle(&self) -> (out: bool)
        ensures
            out == (self.en_view_upto(8) == 0 && self.intr == 0 && self.intf & self.inte == 0),
    {
        self.en_view() == 0 && self.intr == 0 && self.intf & self.inte == 0
    }

    fn route_irq(&self, irqs: &mut u32)
        ensures
            *final(irqs) == self.routed(*old(irqs)),
    {
        if (self.intr | self.intf) & self.inte != 0 && self.irq < 32 {
            *irqs = *irqs | (1u32 << self.irq);
        }
    }

    pub fn read32(&self, offset: u32) -> (out: u32)
        ensures
            out == self.word_at(offset),
    {
        if offset < EN {
            self.slices[(offset / SLICE_STRIDE) as usize].read32(offset % SLICE_STRIDE)
        } else if offset == EN {
            self.en_view()
        } else if offset == INTR {
            self.intr
        } else if offset == INTE {
            self.inte
        } else if offset == INTF {
            self.intf
        } else if offset == INTS {
            (self.intr | self.intf) & self.inte
        } else {
            0
        }
    }

    pub fn write32(&mut self, offset: u32, val: u32, alias: u32, irqs: &mut u32)
        ensures
            *final(self) == old(self).after_write(offset, val, alias),
            *final(irqs) == final(self).routed(*old(irqs)),
    {
        if offset < EN {
            self.slices[(offset / SLICE_STRIDE) as usize].write32(offset % SLICE_STRIDE, val, alias);
        } else if offset == EN {
            let mask: u32 = apply_alias(self.en_view(), val, alias);
            self.set_enables(mask);
        } else if offset == INTR {
            self.intr = self.intr & !val;
        } else if offset == INTE {
            self.inte = apply_alias(self.inte, val, alias) & 0xFF;
        } else if offset == INTF {
            self.intf = apply_alias(self.intf, val, alias) & 0xFF;
        }
        self.route_irq(irqs);
    }

    /// Runs every slice for `cycles` system clocks.
    pub fn tick(&mut self, cycles: u32, tree: &ClockTree, irqs: &mut u32)
        ensures
            *final(self) == old(self).run_upto(8, cycles),
            *final(irqs) == final(self).routed(*old(irqs)),
    {
        let ghost before = *self;
        let mut n: usize = 0;
        while n < 8
            invariant
                n <= 8,
                *self == before.run_upto(n as nat, cycles),
            decreases 8 - n,
        {
            if self.slices[n].run(cycles) {
                self.intr = self.intr | (1u32 << (n as u32));
            }
            n += 1;
        }
        self.route_irq(irqs);
    }
}

impl Default for PwmRegs {
    fn default() -> (p: PwmRegs)
        ensures
            p == PwmRegs::at_reset(crate::irq::IRQ_PWM_IRQ_WRAP),
    {
        PwmRegs::new(crate::irq::IRQ_PWM_IRQ_WRAP)
    }
}

/// Running the block runs each slice by itself: slice `k` moves as it would
/// alone, and its interrupt bit latches exactly when it wrapped or was
/// latched before.
pub proof fn law_slices_run_independently(p: PwmRegs, n: nat, k: int, cycles: u32)
    requires
        n <= 8,
        0 <= k < 8,
    ensures
        p.run_upto(n, cycles).slices[k] == (if k < n {
            p.slices[k].after_cycles(cycles)
        } else {
            p.slices[k]
        }),
        bit(p.run_upto(n, cycles).intr, k) == (bit(p.intr, k) || (k < n && p.slices[k].wraps(cycles))),
    decreases n,
{
    if n > 0 {
        let m = (n - 1) as nat;
        law_slices_run_independently(p, m, k, cycles);
        law_slices_run_independently(p, m, m as int, cycles);
        lemma_set_clear_bit(p.run_upto(m, cycles).intr, m as u32, k as u32);
    }
}

/// Two ticks of a slice are one longer tick: the counter ends at the same
/// place, and it has wrapped in one of the two exactly when it wraps in the
/// one.
pub proof fn law_slice_time_adds_up(s: PwmSlice, a: u32, b: u32)
    requires
        a + b <= u32::MAX,
    ensures
        s.after_cycles(a).after_cycles(b) == s.after_cycles((a + b) as u32),
        (s.wraps(a) || s.after_cycles(a).wraps(b)) == s.wraps((a + b) as u32),
{
    let m = s.top + 1;
    lemma_periods_add_up(s.ctr + a, b as int, m);
    lemma_periods_add_up(s.ctr + a, 0, m);
    if s.ctr + a < m {
        vstd::arithmetic::div_mod::lemma_small_mod((s.ctr + a) as nat, m as nat);
    }
}

} // verus!
