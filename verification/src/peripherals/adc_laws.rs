//! What the converter samples, queues and reports.
use vstd::arithmetic::div_mod::lemma_fundamental_div_mod_converse;
use vstd::prelude::*;

use crate::bits::{aliased, bit, lemma_bit_ops};
use crate::clocks::ClockTree;
use crate::fifo::{law_fifo_drop_front, law_fifo_push_appends};
use crate::peripherals::adc::AdcRegs;
use crate::peripherals::laws::{lemma_fields, lemma_mask_bits, lemma_ported, ported, takes};

verus! {

/// The control word asks for conversions.
pub open spec fn asks(a: AdcRegs) -> bool {
    bit(a.word_at(0x00), 0) && (bit(a.word_at(0x00), 2) || bit(a.word_at(0x00), 3))
}

/// The bits that the control word shows.
proof fn lemma_control_bits(a: AdcRegs, i: int)
    requires
        0 <= i < 32,
    ensures
        bit(a.word_at(0x00), i) == (bit(a.cs, i) || (i == 8 && a.ready)),
{
    lemma_mask_bits(i as u32);
    lemma_bit_ops(a.cs, 0x100, i as u32, 0);
}

/// The control word takes a write bit by bit, but for the ready bit, which it
/// only shows; so do the divider and the interrupt registers.
pub proof fn law_adc_registers(a: AdcRegs, val: u32, alias: u32, i: int)
    requires
        0 <= i < 32,
    ensures
        i != 8 ==> takes(
            a.word_at(0x00),
            a.after_write(0x00, val, alias).word_at(0x00),
            val,
            alias,
            i,
            i < 4 || 12 <= i < 15 || 16 <= i < 21,
        ),
        takes(a.word_at(0x10), a.after_write(0x10, val, alias).word_at(0x10), val, alias, i, i < 24),
        takes(a.word_at(0x18), a.after_write(0x18, val, alias).word_at(0x18), val, alias, i, i == 0),
        takes(a.word_at(0x1C), a.after_write(0x1C, val, alias).word_at(0x1C), val, alias, i, i == 0),
{
    lemma_mask_bits(i as u32);
    lemma_ported(a.cs, val, alias, 0x1F_700F, i);
    lemma_ported(a.div, val, alias, 0xFF_FFFF, i);
    lemma_ported(a.inte, val, alias, 0x1, i);
    lemma_ported(a.intf, val, alias, 0x1, i);
    lemma_control_bits(a, i);
    lemma_control_bits(a.after_write(0x00, val, alias), i);
}

/// A write to a register leaves the others alone; only those that are made of
/// it follow.
pub proof fn law_adc_registers_are_apart(a: AdcRegs, at: u32, other: u32, val: u32, alias: u32)
    requires
        at != other,
        other != 0x20,
    ensures
        !(at == 0x08 && (other == 0x0C || other == 0x14)) ==> a.after_write(at, val, alias).word_at(other)
            == a.word_at(other),
        at != 0x08 ==> a.after_write(at, val, alias).samples == a.samples,
        at != 0x00 ==> a.after_write(at, val, alias).remaining == a.remaining,
{
}

/// Switching the converter on makes it ready, switching it off stops it. A
/// converter that is on, is asked and has nothing in hand begins a conversion
/// of ninety-six clocks and is not ready until it ends.
pub proof fn law_conversions_begin(a: AdcRegs, val: u32, alias: u32)
    ensures
        ({
            let after = a.after_write(0x00, val, alias);
            let was_on = bit(a.word_at(0x00), 0);
            let now_on = bit(after.word_at(0x00), 0);
            let kept = if was_on && !now_on {
                None
            } else {
                a.remaining
            };
            let begins = asks(after) && kept is None;
            &&& after.remaining == (if begins {
                Some(96u64)
            } else {
                kept
            })
            &&& after.ready == (if begins || (was_on && !now_on) {
                false
            } else if !was_on && now_on {
                true
            } else {
                a.ready
            })
            &&& bit(after.word_at(0x00), 8) == after.ready
        }),
{
    let after = a.after_write(0x00, val, alias);
    lemma_fields(a.cs);
    lemma_fields(after.cs);
    lemma_control_bits(a, 0);
    lemma_control_bits(after, 0);
    lemma_control_bits(after, 2);
    lemma_control_bits(after, 3);
    lemma_control_bits(after, 8);
    lemma_ported(a.cs, val, alias, 0x1F_700F, 8);
    lemma_mask_bits(8);
}

/// A conversion that ends gives the channel number above a count of
/// conversions, as its result and, while the queue is on, as a sample at the
/// end of the queue; one without room is lost and noted. The converter is
/// ready, and a request for one conversion is spent.
pub proof fn law_conversions_end(a: AdcRegs, clocks: nat, i: int)
    requires
        a.remaining matches Some(left) && 0 < left <= clocks,
        !bit(a.word_at(0x00), 3),
        a.samples.count <= 4,
        0 <= i < 32,
    ensures
        ({
            let after = a.converting(clocks);
            let sample = (a.word_at(0x00) as int / 0x1000 % 8 * 256 + a.converted as int % 256) as u32;
            let queued = bit(a.word_at(0x08), 0);
            &&& after.word_at(0x04) == sample
            &&& after.samples.items() == (if queued && a.samples.items().len() < 4 {
                a.samples.items().push(sample)
            } else {
                a.samples.items()
            })
            &&& after.over == (a.over || (queued && a.samples.items().len() >= 4))
            &&& after.under == a.under
            &&& after.ready
            &&& after.remaining is None
            &&& after.converted as int == (a.converted + 1) % 0x1_0000_0000
            &&& i != 8 ==> bit(after.word_at(0x00), i) == (bit(a.word_at(0x00), i) && i != 2)
        }),
{
    let after = a.converting(clocks);
    lemma_fields(a.cs);
    lemma_control_bits(a, 3);
    crate::peripherals::adc::law_single_shot_converts_once(a, clocks);
    lemma_queue_bits(a, 0);
    lemma_fields(a.fcs);
    lemma_fields(a.converted);
    lemma_sample_parts(a.cs, a.converted);
    if a.ready {
        lemma_ready_is_apart(a.cs);
    }
    law_fifo_push_appends(a.samples, a.sample(), 4);
    lemma_control_bits(a, i);
    lemma_control_bits(after, i);
    lemma_mask_bits(i as u32);
    lemma_bit_ops(a.cs, 0x4, i as u32, 0);
}

proof fn lemma_sample_parts(cs: u32, n: u32)
    by (bit_vector)
    ensures
        (((cs >> 12) & 0x7) << 8) | (n & 0xFF) == cs / 0x1000 % 8 * 256 + n % 256,
{
}

proof fn lemma_ready_is_apart(cs: u32)
    by (bit_vector)
    ensures
        (cs | 0x100) / 0x1000 == cs / 0x1000,
{
}

/// A conversion in hand comes nearer to its end by the clocks that pass, and
/// nothing else changes until then; a converter with nothing in hand stands
/// still.
pub proof fn law_conversions_take_time(a: AdcRegs, clocks: nat)
    ensures
        a.remaining matches Some(left) && left > clocks ==> a.converting(clocks) == (AdcRegs {
            remaining: Some((a.remaining->0 - clocks) as u64),
            ..a
        }),
        a.remaining is None ==> a.converting(clocks) == a,
{
}

/// A converter that runs freely completes a conversion with every ninety-six
/// clocks.
pub proof fn law_free_running(a: AdcRegs, k: nat)
    requires
        a.remaining matches Some(left) && left > 0,
        bit(a.word_at(0x00), 0),
        bit(a.word_at(0x00), 3),
    ensures
        a.converting((a.remaining->0 + 96 * k) as nat).converted as int == (a.converted + k + 1) % 0x1_0000_0000,
        a.converting((a.remaining->0 + 96 * k) as nat).remaining == Some(96u64),
    decreases k,
{
    let next = a.completed().maybe_started();
    lemma_fields(a.cs);
    lemma_fields(next.cs);
    lemma_control_bits(a, 0);
    lemma_control_bits(a, 3);
    lemma_control_bits(next, 0);
    lemma_control_bits(next, 3);
    lemma_mask_bits(0);
    lemma_mask_bits(3);
    lemma_bit_ops(a.cs, 0x4, 0, 0);
    lemma_bit_ops(a.cs, 0x4, 3, 0);
    assert(next.remaining == Some(96u64));
    assert(a.converting((a.remaining->0 + 96 * k) as nat) == next.converting((96 * k) as nat));
    if k > 0 {
        law_free_running(next, (k - 1) as nat);
        assert((96 + 96 * (k - 1)) as nat == (96 * k) as nat);
    }
}

/// System clocks become converter clocks at forty-eight million a second,
/// whole ones only, and what is over counts for the next.
pub proof fn law_converter_clock(a: AdcRegs, cycles: u32, tree: ClockTree, k: int)
    requires
        cycles > 0,
        a.remaining is Some,
        tree.sys_clk_hz > 0,
        a.phase + cycles * 48_000_000 < 0x1_0000_0000_0000_0000,
        k * tree.sys_clk_hz <= a.phase + cycles * 48_000_000 < (k + 1) * tree.sys_clk_hz,
    ensures
        k >= 0,
        a.after_tick(cycles, tree) == (AdcRegs {
            phase: (a.phase + cycles * 48_000_000 - k * tree.sys_clk_hz) as u64,
            ..a
        }).converting(k as nat),
{
    let hz = tree.sys_clk_hz as int;
    let total = a.phase + cycles * 48_000_000;
    assert((k + 1) * hz == k * hz + hz) by (nonlinear_arith);
    assert(hz * k == k * hz) by (nonlinear_arith);
    lemma_fundamental_div_mod_converse(total, hz, k, total - k * hz);
    assert(k >= 0) by (nonlinear_arith)
        requires
            total >= 0,
            hz > 0,
            total < (k + 1) * hz,
    ;
}

/// The bits that the queue word shows.
proof fn lemma_queue_bits(a: AdcRegs, i: int)
    requires
        0 <= i < 32,
    ensures
        bit(a.word_at(0x08), i) == (bit(a.fcs, i) || (i == 8 && a.samples.count == 0) || (i == 9 && a.samples.count
            >= 4) || (i == 10 && a.under) || (i == 11 && a.over) || (i >= 16 && bit(a.samples.count as u32, i - 16))),
{
    let b = if a.samples.count == 0 {
        0x100
    } else {
        0u32
    };
    let c = if a.samples.count >= 4 {
        0x200
    } else {
        0u32
    };
    let d = if a.under {
        0x400
    } else {
        0u32
    };
    let e = if a.over {
        0x800
    } else {
        0u32
    };
    let n = a.samples.count as u32;
    lemma_mask_bits(i as u32);
    lemma_bit_ops(a.fcs, b, i as u32, 0);
    lemma_bit_ops(a.fcs | b, c, i as u32, 0);
    lemma_bit_ops(a.fcs | b | c, d, i as u32, 0);
    lemma_bit_ops(a.fcs | b | c | d, e, i as u32, 0);
    lemma_bit_ops(a.fcs | b | c | d | e, n << 16, i as u32, 0);
    lemma_bit_ops(n, 0, i as u32, 16);
}

/// The queue word shows its settings, whether the queue is empty or full,
/// what went wrong, and how many samples it holds.
pub proof fn law_queue_word(a: AdcRegs, i: int)
    requires
        0 <= i < 32,
        a.fcs & 0xF0FF_FFF0 == 0,
    ensures
        4 <= i < 8 || 12 <= i < 16 ==> !bit(a.word_at(0x08), i),
        bit(a.word_at(0x08), 8) == (a.samples.items().len() == 0),
        bit(a.word_at(0x08), 9) == (a.samples.items().len() >= 4),
        bit(a.word_at(0x08), 10) == a.under,
        bit(a.word_at(0x08), 11) == a.over,
        16 <= i < 24 ==> bit(a.word_at(0x08), i) == bit(a.samples.count as u32, i - 16),
{
    lemma_unheld(a.fcs, i as u32);
    lemma_unheld(a.fcs, 8);
    lemma_unheld(a.fcs, 9);
    lemma_unheld(a.fcs, 10);
    lemma_unheld(a.fcs, 11);
    lemma_queue_bits(a, i);
    lemma_queue_bits(a, 8);
    lemma_queue_bits(a, 9);
    lemma_queue_bits(a, 10);
    lemma_queue_bits(a, 11);
}

proof fn lemma_unheld(x: u32, i: u32)
    by (bit_vector)
    requires
        x & 0xF0FF_FFF0 == 0,
        i < 32,
    ensures
        4 <= i < 24 || i >= 28 ==> (x >> i) & 1 != 1,
        (x >> 24) & 1 == 1 <==> (x / 0x100_0000) % 2 == 1,
{
}

/// A write to the queue word sets its settings bit by bit. Through the plain
/// and the setting port, a written one drops what went wrong. Switching the
/// queue off empties it, and nothing else touches the samples.
pub proof fn law_queue_settings(a: AdcRegs, val: u32, alias: u32, i: int)
    requires
        0 <= i < 32,
    ensures
        ({
            let after = a.after_write(0x08, val, alias);
            let drops = alias == 0 || alias == 2;
            &&& bit(after.fcs, i) == ((i < 4 || 24 <= i < 28) && ported(bit(a.fcs, i), bit(val, i), alias))
            &&& after.under == (a.under && !(drops && bit(val, 10)))
            &&& after.over == (a.over && !(drops && bit(val, 11)))
            &&& bit(after.fcs, 0) ==> after.samples == a.samples
            &&& !bit(after.fcs, 0) ==> after.samples.items().len() == 0
        }),
{
    lemma_mask_bits(i as u32);
    lemma_ported(a.fcs, val, alias, 0x0F00_000F, i);
    lemma_fields(val);
    lemma_fields(aliased(a.fcs, val, alias) & 0x0F00_000F);
}

/// Reading the queue gives the oldest sample, without its low four bits if it
/// is asked to, and takes it; reading it empty gives zero and is noted. No
/// other read changes anything.
pub proof fn law_samples_leave(a: AdcRegs, at: u32)
    requires
        a.samples.count <= 4,
    ensures
        ({
            let after = a.after_read(0x0C);
            &&& a.samples.items().len() == 0 ==> a.word_at(0x0C) == 0 && after.under
            &&& a.samples.items().len() > 0 ==> {
                &&& a.word_at(0x0C) as int == (if bit(a.fcs, 1) {
                    a.samples.items()[0] as int / 16
                } else {
                    a.samples.items()[0] as int
                })
                &&& after.samples.items() == a.samples.items().skip(1)
                &&& after.under == a.under
            }
            &&& after.over == a.over
            &&& after.remaining == a.remaining
            &&& at != 0x0C ==> a.after_read(at) == a
        }),
{
    lemma_fields(a.fcs);
    lemma_fields(a.samples.front());
    if a.samples.count > 0 {
        law_fifo_drop_front(a.samples, 1);
    }
}

/// The queue interrupt is raised while the queue is on and holds as many
/// samples as its threshold, which is not zero; what is shown is raised or
/// forced, and enabled; the line is raised while anything is shown. The queue
/// asks for a transfer while it is on, may ask, and holds a sample and no
/// fewer than its threshold.
pub proof fn law_adc_interrupts(a: AdcRegs, irqs: u32, i: int)
    requires
        0 <= i < 32,
        a.irq < 32,
    ensures
        ({
            let threshold = a.fcs as int / 0x100_0000 % 16;
            let held = a.samples.items().len();
            &&& bit(a.word_at(0x14), i) == (i == 0 && bit(a.fcs, 0) && threshold > 0 && held >= threshold)
            &&& bit(a.word_at(0x20), i) == ((bit(a.word_at(0x14), i) || bit(a.word_at(0x1C), i)) && bit(
                a.word_at(0x18),
                i,
            ))
            &&& bit(a.routed(irqs), i) == (bit(irqs, i) || (i == a.irq && a.word_at(0x20) != 0))
            &&& a.wants_dma() == (bit(a.fcs, 0) && bit(a.fcs, 3) && held > 0 && held >= threshold)
        }),
{
    lemma_fields(a.fcs);
    lemma_mask_bits(i as u32);
    lemma_bit_ops(a.intr(), a.intf, i as u32, 0);
    lemma_bit_ops(a.intr() | a.intf, a.inte, i as u32, 0);
    lemma_bit_ops(irqs, 0, i as u32, a.irq);
}

} // verus!
