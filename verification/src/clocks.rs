//! Clock frequencies and the two phase-locked loops.
use vstd::prelude::*;

use crate::bits::{aliased, apply_alias, lemma_word_facts};

verus! {

/// Nominal frequency of the ring oscillator, which clocks everything after
/// power-up.
pub const ROSC_HZ: u32 = 6_500_000;

/// System clocks from powering a loop up to its lock.
pub const PLL_LOCK_DELAY_SYSCLKS: u64 = 1200;

/// Power-down bits of the loop's power register: the core and the oscillator.
pub const PLL_PWR_PD: u32 = 0x01;
pub const PLL_PWR_VCOPD: u32 = 0x20;
pub const PLL_CS_LOCK: u32 = 0x8000_0000;

#[derive(Clone, Copy, Debug, PartialEq, Eq, Structural)]
pub struct ClockTree {
    pub sys_clk_hz: u32,
    pub ref_clk_hz: u32,
    pub peri_clk_hz: u32,
}

impl ClockTree {
    pub open spec fn at_reset() -> ClockTree {
        ClockTree::all(ROSC_HZ)
    }

    /// Every clock at `hz`.
    pub open spec fn all(hz: u32) -> ClockTree {
        ClockTree { sys_clk_hz: hz, ref_clk_hz: hz, peri_clk_hz: hz }
    }
}

impl Default for ClockTree {
    fn default() -> (t: ClockTree)
        ensures
            t == ClockTree::at_reset(),
    {
        ClockTree { sys_clk_hz: ROSC_HZ, ref_clk_hz: ROSC_HZ, peri_clk_hz: ROSC_HZ }
    }
}

/// The four registers of one phase-locked loop.
#[derive(Clone, Copy, Debug, PartialEq, Eq, Structural)]
pub struct Pll {
    pub cs: u32,
    pub pwr: u32,
    pub fbdiv: u32,
    pub prim: u32,
}

impl Pll {
    pub open spec fn at_reset() -> Pll {
        Pll { cs: 0x1, pwr: 0x2D, fbdiv: 0, prim: 0x7_7000 }
    }

    /// Powered, with a feedback divider: the loop can lock.
    pub open spec fn running(self) -> bool {
        self.pwr & PLL_PWR_PD == 0 && self.pwr & PLL_PWR_VCOPD == 0 && self.fbdiv != 0
    }

    pub open spec fn after_write(self, offset: u32, val: u32, alias: u32) -> Pll {
        if offset == 0x0 {
            Pll { cs: aliased(self.cs, val, alias) & 0x13F, ..self }
        } else if offset == 0x4 {
            Pll { pwr: aliased(self.pwr, val, alias) & 0x2D, ..self }
        } else if offset == 0x8 {
            Pll { fbdiv: aliased(self.fbdiv, val, alias) & 0xFFF, ..self }
        } else if offset == 0xC {
            Pll { prim: aliased(self.prim, val, alias) & 0x7_7000, ..self }
        } else {
            self
        }
    }

    /// The cycle at which the loop locks, after a write at cycle `now`. A
    /// loop that cannot run has none; one that could run before the write
    /// keeps its own; one that starts to run locks after the fixed delay.
    pub open spec fn lock_after_write(
        self,
        lock_at: Option<u64>,
        offset: u32,
        val: u32,
        alias: u32,
        now: u64,
    ) -> Option<u64> {
        let next = self.after_write(offset, val, alias);
        if !next.running() {
            None
        } else if lock_at is Some {
            lock_at
        } else {
            Some(((now + PLL_LOCK_DELAY_SYSCLKS) % 0x1_0000_0000_0000_0000) as u64)
        }
    }

    /// A register read at cycle `now`: the lock bit of the control word is
    /// live.
    pub open spec fn word_at(self, lock_at: Option<u64>, offset: u32, now: u64) -> u32 {
        if offset == 0x0 {
            if locked(lock_at, now) {
                self.cs | PLL_CS_LOCK
            } else {
                self.cs
            }
        } else if offset == 0x4 {
            self.pwr
        } else if offset == 0x8 {
            self.fbdiv
        } else if offset == 0xC {
            self.prim
        } else {
            0
        }
    }

    pub fn new() -> (p: Pll)
        ensures
            p == Pll::at_reset(),
    {
        Pll { cs: 0x1, pwr: 0x2D, fbdiv: 0, prim: 0x7_7000 }
    }

    fn is_running(&self) -> (out: bool)
        ensures
            out == self.running(),
    {
        self.pwr & PLL_PWR_PD == 0 && self.pwr & PLL_PWR_VCOPD == 0 && self.fbdiv != 0
    }

    pub fn read32(&self, lock_at: Option<u64>, offset: u32, now: u64) -> (out: u32)
        ensures
            out == self.word_at(lock_at, offset, now),
    {
        if offset == 0x0 {
            match lock_at {
                Some(at) => if at <= now {
                    self.cs | PLL_CS_LOCK
                } else {
                    self.cs
                },
                None => self.cs,
            }
        } else if offset == 0x4 {
            self.pwr
        } else if offset == 0x8 {
            self.fbdiv
        } else if offset == 0xC {
            self.prim
        } else {
            0
        }
    }

    /// Writes a register and returns when the loop locks from now on.
    pub fn write32(&mut self, lock_at: Option<u64>, offset: u32, val: u32, alias: u32, now: u64) -> (out: Option<u64>)
        ensures
            *final(self) == old(self).after_write(offset, val, alias),
            out == old(self).lock_after_write(lock_at, offset, val, alias, now),
    {
        if offset == 0x0 {
            self.cs = apply_alias(self.cs, val, alias) & 0x13F;
        } else if offset == 0x4 {
            self.pwr = apply_alias(self.pwr, val, alias) & 0x2D;
        } else if offset == 0x8 {
            self.fbdiv = apply_alias(self.fbdiv, val, alias) & 0xFFF;
        } else if offset == 0xC {
            self.prim = apply_alias(self.prim, val, alias) & 0x7_7000;
        }
        if !self.is_running() {
            None
        } else {
            match lock_at {
                Some(at) => Some(at),
                None => Some(now.wrapping_add(PLL_LOCK_DELAY_SYSCLKS)),
            }
        }
    }
}

/// Whether a loop that locks at `lock_at` is locked at cycle `now`.
pub open spec fn locked(lock_at: Option<u64>, now: u64) -> bool {
    lock_at matches Some(at) && at <= now
}

/// The lock bit reads as one exactly when the loop is locked, whatever else
/// the control word holds.
pub proof fn law_lock_bit_is_live(p: Pll, lock_at: Option<u64>, now: u64)
    requires
        p.cs & PLL_CS_LOCK == 0,
    ensures
        p.word_at(lock_at, 0, now) & PLL_CS_LOCK != 0 <==> locked(lock_at, now),
        p.word_at(lock_at, 0, now) & 0x3F == p.cs & 0x3F,
{
    let cs = p.cs;
    lemma_word_facts(cs, 0, 0);
}

/// No write leaves a lock bit in the stored control word.
pub proof fn law_control_word_never_stores_lock(p: Pll, offset: u32, val: u32, alias: u32)
    requires
        p.cs & PLL_CS_LOCK == 0,
    ensures
        p.after_write(offset, val, alias).cs & PLL_CS_LOCK == 0,
        Pll::at_reset().cs & PLL_CS_LOCK == 0,
{
    let x = aliased(p.cs, val, alias);
    lemma_word_facts(x, 0, 0);
}

/// Powering a loop down drops its lock at once, and a write to the
/// post-dividers moves neither the lock nor the time of it.
pub proof fn law_power_down_and_post_dividers(p: Pll, lock_at: Option<u64>, val: u32, alias: u32, now: u64)
    ensures
        p.after_write(0x4, val, alias).pwr & PLL_PWR_PD != 0 ==> !locked(
            p.lock_after_write(lock_at, 0x4, val, alias, now),
            now,
        ),
        p.running() && lock_at is Some ==> p.lock_after_write(lock_at, 0xC, val, alias, now) == lock_at,
{
}

/// Time counted in periods, with the rest carried over, adds up.
pub proof fn lemma_periods_add_up(t: int, d: int, per: int)
    requires
        per > 0,
        t >= 0,
        d >= 0,
    ensures
        t / per + (t % per + d) / per == (t + d) / per,
        (t % per + d) % per == (t + d) % per,
        0 <= t % per < per,
        t % per <= t,
        0 <= t / per,
        0 <= (t % per + d) / per,
{
    let j = t / per;
    let x = t % per + d;
    vstd::arithmetic::div_mod::lemma_fundamental_div_mod(t, per);
    vstd::arithmetic::div_mod::lemma_mod_bound(t, per);
    vstd::arithmetic::div_mod::lemma_mod_decreases(t as nat, per as nat);
    vstd::arithmetic::div_mod::lemma_div_pos_is_pos(t, per);
    vstd::arithmetic::div_mod::lemma_div_pos_is_pos(x, per);
    vstd::arithmetic::mul::lemma_mul_is_commutative(j, per);
    vstd::arithmetic::div_mod::lemma_hoist_over_denominator(x, j, per as nat);
    vstd::arithmetic::div_mod::lemma_mod_multiples_vanish(j, x, per);
}

} // verus!
