//! What the pulse-width modulator counts and reports.
use vstd::arithmetic::div_mod::lemma_fundamental_div_mod;
use vstd::prelude::*;

use crate::bits::{aliased, bit, lemma_bit_ops};
use crate::peripherals::laws::{lemma_fields, lemma_mask_bits, lemma_ported, ported, takes};
use crate::peripherals::pwm::{law_slices_run_independently, PwmRegs};

verus! {

/// Register `r` of slice `n`: control, divider, counter, compare, top.
pub open spec fn register(n: int, r: int) -> u32 {
    (20 * n + 4 * r) as u32
}

/// Each register of a slice holds its own bits, takes a write bit by bit, and
/// leaves every other register of every slice alone.
pub proof fn law_slice_registers(p: PwmRegs, n: int, r: int, val: u32, alias: u32, i: int, m: int, q: int)
    requires
        0 <= n < 8,
        0 <= r < 5,
        0 <= m < 8,
        0 <= q < 5,
        0 <= i < 32,
    ensures
        ({
            let held = if r == 0 {
                i < 6
            } else if r == 1 {
                i < 12
            } else if r == 3 {
                true
            } else {
                i < 16
            };
            let after = p.after_write(register(n, r), val, alias);
            &&& takes(p.word_at(register(n, r)), after.word_at(register(n, r)), val, alias, i, held)
            &&& (m != n || q != r) ==> after.word_at(register(m, q)) == p.word_at(register(m, q))
            &&& after.word_at(0xA4) == p.word_at(0xA4)
            &&& after.word_at(0xA8) == p.word_at(0xA8)
            &&& after.word_at(0xAC) == p.word_at(0xAC)
        }),
{
    let s = p.slices[n];
    lemma_mask_bits(i as u32);
    lemma_ported(s.csr, val, alias, 0x3F, i);
    lemma_ported(s.div, val, alias, 0xFFF, i);
    lemma_ported(s.ctr, val, alias, 0xFFFF, i);
    lemma_ported(s.cc, val, alias, 0xFFFF_FFFF, i);
    lemma_ported(s.top, val, alias, 0xFFFF, i);
    assert(register(n, r) / 20 == n && register(n, r) % 20 == 4 * r);
    assert(register(m, q) / 20 == m && register(m, q) % 20 == 4 * q);
}

/// The shared enable register shows the enable bit of each slice, and a write
/// to it is a write to those bits and to nothing else.
pub proof fn law_enable_register(p: PwmRegs, val: u32, alias: u32, n: int, i: int, r: int)
    requires
        0 <= n < 8,
        0 <= i < 32,
        1 <= r < 5,
    ensures
        bit(p.word_at(0xA0), n) == bit(p.word_at(register(n, 0)), 0),
        i >= 8 ==> !bit(p.word_at(0xA0), i),
        ({
            let after = p.after_write(0xA0, val, alias);
            &&& bit(after.word_at(register(n, 0)), 0) == ported(
                bit(p.word_at(register(n, 0)), 0),
                bit(val, n),
                alias,
            )
            &&& i > 0 ==> bit(after.word_at(register(n, 0)), i) == bit(p.word_at(register(n, 0)), i)
            &&& after.word_at(register(n, r)) == p.word_at(register(n, r))
            &&& after.word_at(0xA4) == p.word_at(0xA4)
        }),
{
    let mask = aliased(p.en_view_upto(8), val, alias);
    lemma_enabled(p, 8, n);
    lemma_enabled(p, 8, i);
    lemma_fields(p.slices[n].csr);
    lemma_ported(p.en_view_upto(8), val, alias, 0, n);
    lemma_enables(p, 8, mask, n);
    lemma_mask_bits(i as u32);
    lemma_mask_bits(0);
    lemma_bit_ops(p.slices[n].csr, 1, 0, 0);
    lemma_bit_ops(p.slices[n].csr, 1, i as u32, 0);
    assert(register(n, 0) / 20 == n && register(n, 0) % 20 == 0);
    assert(register(n, r) / 20 == n && register(n, r) % 20 == 4 * r);
}

proof fn lemma_enabled(p: PwmRegs, k: nat, n: int)
    requires
        k <= 8,
        0 <= n < 32,
    ensures
        bit(p.en_view_upto(k), n) == (n < k && p.slices[n].enabled()),
    decreases k,
{
    lemma_bit_ops(0, 0, n as u32, 0);
    if k > 0 {
        let m = (k - 1) as nat;
        lemma_enabled(p, m, n);
        lemma_bit_ops(p.en_view_upto(m), 0, n as u32, m as u32);
    }
}

proof fn lemma_enables(p: PwmRegs, k: nat, mask: u32, n: int)
    requires
        k <= 8,
        0 <= n < 8,
    ensures
        p.with_enables_upto(k, mask).slices[n] == (if n < k {
            p.slices[n].with_enable(bit(mask, n))
        } else {
            p.slices[n]
        }),
        p.with_enables_upto(k, mask).intr == p.intr,
    decreases k,
{
    if k > 0 {
        lemma_enables(p, (k - 1) as nat, mask, n);
    }
}

/// A counter that is on moves by the clocks that pass, modulo one more than
/// its top, and latches its interrupt when it passes its top; one that is off
/// stands still and latches nothing.
pub proof fn law_counters_run(p: PwmRegs, n: int, cycles: u32)
    requires
        0 <= n < 8,
    ensures
        ({
            let after = p.run_upto(8, cycles);
            let from = p.word_at(register(n, 2)) as int;
            let to = after.word_at(register(n, 2)) as int;
            let top = p.word_at(register(n, 4)) as int;
            if bit(p.word_at(register(n, 0)), 0) {
                &&& 0 <= to <= top
                &&& exists|turns: int| #![trigger turns * (top + 1)] to == from + cycles - turns * (top + 1)
                &&& bit(after.word_at(0xA4), n) == (bit(p.word_at(0xA4), n) || from + cycles > top)
            } else {
                &&& to == from
                &&& bit(after.word_at(0xA4), n) == bit(p.word_at(0xA4), n)
            }
        }),
        p.run_upto(8, cycles).word_at(register(n, 0)) == p.word_at(register(n, 0)),
        p.run_upto(8, cycles).word_at(register(n, 1)) == p.word_at(register(n, 1)),
        p.run_upto(8, cycles).word_at(register(n, 3)) == p.word_at(register(n, 3)),
        p.run_upto(8, cycles).word_at(register(n, 4)) == p.word_at(register(n, 4)),
{
    let s = p.slices[n];
    law_slices_run_independently(p, 8, n, cycles);
    lemma_fields(s.csr);
    assert(register(n, 0) / 20 == n && register(n, 0) % 20 == 0);
    assert(register(n, 1) / 20 == n && register(n, 1) % 20 == 4);
    assert(register(n, 2) / 20 == n && register(n, 2) % 20 == 8);
    assert(register(n, 3) / 20 == n && register(n, 3) % 20 == 12);
    assert(register(n, 4) / 20 == n && register(n, 4) % 20 == 16);
    if s.enabled() {
        let period = s.top + 1;
        let turns = (s.ctr + cycles) / period;
        lemma_fundamental_div_mod(s.ctr + cycles, period);
        vstd::arithmetic::mul::lemma_mul_is_commutative(period, turns);
        assert(p.run_upto(8, cycles).slices[n].ctr == s.ctr + cycles - turns * period);
    }
}

/// Interrupt bits: latched ones are dropped by writing them as one; enabled
/// and forced ones take a write bit by bit; what is shown is latched or
/// forced, and enabled; the line is raised while anything is shown.
pub proof fn law_pwm_interrupts(p: PwmRegs, val: u32, alias: u32, irqs: u32, i: int)
    requires
        0 <= i < 32,
        p.irq < 32,
    ensures
        bit(p.after_write(0xA4, val, alias).word_at(0xA4), i) == (bit(p.word_at(0xA4), i) && !bit(val, i)),
        takes(p.word_at(0xA8), p.after_write(0xA8, val, alias).word_at(0xA8), val, alias, i, i < 8),
        takes(p.word_at(0xAC), p.after_write(0xAC, val, alias).word_at(0xAC), val, alias, i, i < 8),
        bit(p.word_at(0xB0), i) == ((bit(p.word_at(0xA4), i) || bit(p.word_at(0xAC), i)) && bit(p.word_at(0xA8), i)),
        bit(p.routed(irqs), i) == (bit(irqs, i) || (i == p.irq && p.word_at(0xB0) != 0)),
        p.after_write(0xA8, val, alias).word_at(0xAC) == p.word_at(0xAC),
        p.after_write(0xAC, val, alias).word_at(0xA8) == p.word_at(0xA8),
{
    lemma_mask_bits(i as u32);
    lemma_ported(p.inte, val, alias, 0xFF, i);
    lemma_ported(p.intf, val, alias, 0xFF, i);
    lemma_bit_ops(p.intr, val, i as u32, 0);
    lemma_bit_ops(p.intr, p.intf, i as u32, 0);
    lemma_bit_ops(p.intr | p.intf, p.inte, i as u32, 0);
    lemma_bit_ops(irqs, 0, i as u32, p.irq);
}

} // verus!
