//! The SysTick down-counter of one core.
use vstd::prelude::*;

use crate::bits::lemma_word_facts;

verus! {

pub const CSR_ENABLE: u32 = 0x1;
pub const CSR_TICKINT: u32 = 0x2;
pub const CSR_COUNTFLAG: u32 = 0x1_0000;

#[derive(Clone, Copy, Debug, PartialEq, Eq, Structural)]
pub struct SysTick {
    pub csr: u32,
    pub rvr: u32,
    pub cvr: u32,
}

impl SysTick {
    pub open spec fn at_reset() -> SysTick {
        SysTick { csr: 0, rvr: 0, cvr: 0 }
    }

    pub open spec fn enabled(self) -> bool {
        self.csr & CSR_ENABLE != 0
    }

    /// One clock: an enabled counter that stands at zero reloads and raises
    /// the count flag, any other enabled counter steps down.
    pub open spec fn after_tick(self) -> SysTick {
        if !self.enabled() {
            self
        } else if self.cvr == 0 {
            SysTick { cvr: self.rvr, csr: self.csr | CSR_COUNTFLAG, ..self }
        } else {
            SysTick { cvr: (self.cvr - 1) as u32, ..self }
        }
    }

    /// Whether this clock requests the SysTick exception.
    pub open spec fn fires(self) -> bool {
        self.enabled() && self.cvr == 0 && self.csr & CSR_TICKINT != 0
    }

    pub open spec fn word_at(self, offset: u32) -> u32 {
        if offset == 0x010 {
            self.csr
        } else if offset == 0x014 {
            self.rvr
        } else if offset == 0x018 {
            self.cvr
        } else {
            0
        }
    }

    /// A read of the control word clears the count flag.
    pub open spec fn after_read(self, offset: u32) -> SysTick {
        if offset == 0x010 {
            SysTick { csr: self.csr & !CSR_COUNTFLAG, ..self }
        } else {
            self
        }
    }

    /// A write to the counter clears it whatever was written.
    pub open spec fn after_write(self, offset: u32, val: u32) -> SysTick {
        if offset == 0x010 {
            SysTick { csr: (self.csr & CSR_COUNTFLAG) | (val & 0x7), ..self }
        } else if offset == 0x014 {
            SysTick { rvr: val & 0x00FF_FFFF, ..self }
        } else if offset == 0x018 {
            SysTick { cvr: 0, csr: self.csr & !CSR_COUNTFLAG, ..self }
        } else {
            self
        }
    }

    pub fn new() -> (s: SysTick)
        ensures
            s == SysTick::at_reset(),
    {
        SysTick { csr: 0, rvr: 0, cvr: 0 }
    }

    pub fn is_enabled(&self) -> (out: bool)
        ensures
            out == self.enabled(),
    {
        self.csr & CSR_ENABLE != 0
    }

    pub fn tick(&mut self) -> (fired: bool)
        ensures
            *final(self) == old(self).after_tick(),
            fired == old(self).fires(),
    {
        if self.csr & CSR_ENABLE == 0 {
            return false;
        }
        if self.cvr == 0 {
            let fired = self.csr & CSR_TICKINT != 0;
            self.cvr = self.rvr;
            self.csr = self.csr | CSR_COUNTFLAG;
            fired
        } else {
            self.cvr = self.cvr - 1;
            false
        }
    }

    pub fn read32(&mut self, offset: u32) -> (out: u32)
        ensures
            out == old(self).word_at(offset),
            *final(self) == old(self).after_read(offset),
    {
        if offset == 0x010 {
            let v: u32 = self.csr;
            self.csr = self.csr & !CSR_COUNTFLAG;
            v
        } else if offset == 0x014 {
            self.rvr
        } else if offset == 0x018 {
            self.cvr
        } else {
            0
        }
    }

    pub fn write32(&mut self, offset: u32, val: u32)
        ensures
            *final(self) == old(self).after_write(offset, val),
    {
        if offset == 0x010 {
            self.csr = (self.csr & CSR_COUNTFLAG) | (val & 0x7);
        } else if offset == 0x014 {
            self.rvr = val & 0x00FF_FFFF;
        } else if offset == 0x018 {
            self.cvr = 0;
            self.csr = self.csr & !CSR_COUNTFLAG;
        }
    }
}

/// `n` clocks in a row.
pub open spec fn ticked(s: SysTick, n: nat) -> SysTick
    decreases n,
{
    if n == 0 {
        s
    } else {
        ticked(s, (n - 1) as nat).after_tick()
    }
}

/// An enabled counter goes down by one each clock and requests nothing on
/// its way to zero.
pub proof fn law_systick_counts_down(s: SysTick, k: nat)
    requires
        s.enabled(),
        k <= s.cvr,
    ensures
        ticked(s, k) == (SysTick { cvr: (s.cvr - k) as u32, ..s }),
        k < s.cvr ==> !ticked(s, k).fires(),
    decreases k,
{
    if k > 0 {
        law_systick_counts_down(s, (k - 1) as nat);
    }
}

proof fn lemma_first_clock(s: SysTick, n: nat)
    ensures
        ticked(s, n + 1) == ticked(s.after_tick(), n),
    decreases n,
{
    if n > 0 {
        lemma_first_clock(s, (n - 1) as nat);
    } else {
        assert(ticked(s, 1) == ticked(s, 0).after_tick());
    }
}

/// From zero, an enabled counter is back at zero after `rvr + 1` clocks, with
/// the count flag raised: it requests its exception once in that period, on
/// the first of them.
pub proof fn law_systick_period(s: SysTick, k: nat)
    requires
        s.enabled(),
        s.cvr == 0,
    ensures
        ticked(s, (s.rvr + 1) as nat) == (SysTick { cvr: 0, csr: s.csr | CSR_COUNTFLAG, ..s }),
        s.fires() == (s.csr & CSR_TICKINT != 0),
        0 < k <= s.rvr ==> !ticked(s, k).fires(),
{
    let flagged = s.after_tick();
    let csr = s.csr;
    lemma_word_facts(csr, 0, 0);
    lemma_first_clock(s, s.rvr as nat);
    law_systick_counts_down(flagged, s.rvr as nat);
    if 0 < k <= s.rvr {
        lemma_first_clock(s, (k - 1) as nat);
        law_systick_counts_down(flagged, (k - 1) as nat);
    }
}

} // verus!
