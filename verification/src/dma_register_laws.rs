//! What the registers of the transfer controller hold, through every port, and
//! what its channels keep count of.
use vstd::prelude::*;

use crate::bits::{bit, lemma_bit_ops, wadd};
use crate::dma::{Channel, Dma};
use crate::dma_laws::register_of;
use crate::peripherals::laws::{lemma_mask_bits, lemma_ported, takes};

verus! {

/// Through every port, a write to one of a channel's registers, or to one of
/// its aliases, takes effect bit by bit; the control word has twenty-four
/// bits.
pub proof fn law_channel_ports(c: Channel, inner: int, val: u32, alias: u32, i: int)
    requires
        0 <= inner < 0x40,
        inner % 4 == 0,
        0 <= i < 32,
    ensures
        ({
            let after = c.after_write(inner as u32, val, alias);
            let what = register_of(inner);
            &&& what == 0 ==> takes(c.read_addr, after.read_addr, val, alias, i, true)
            &&& what == 1 ==> takes(c.write_addr, after.write_addr, val, alias, i, true)
            &&& what == 2 ==> takes(c.trans_count, after.trans_count, val, alias, i, true) && after.trans_count_reload
                == after.trans_count
            &&& what == 3 ==> takes(c.ctrl, after.ctrl, val, alias, i, i < 24)
            &&& what != 0 ==> after.read_addr == c.read_addr
            &&& what != 1 ==> after.write_addr == c.write_addr
            &&& what != 2 ==> after.trans_count == c.trans_count && after.trans_count_reload == c.trans_count_reload
            &&& what != 3 ==> after.ctrl == c.ctrl
        }),
{
    lemma_mask_bits(i as u32);
    lemma_ported(c.read_addr, val, alias, 0, i);
    lemma_ported(c.write_addr, val, alias, 0, i);
    lemma_ported(c.trans_count, val, alias, 0, i);
    lemma_ported(c.ctrl, val, alias, 0xFF_FFFF, i);
}

/// Each of the five triggering aliases counts its own writes, modulo 2^32, and
/// no other write counts; nor does a write count as a chain or as a trigger
/// of many.
pub proof fn law_triggers_are_counted(c: Channel, inner: int, val: u32, alias: u32)
    requires
        0 <= inner < 0x40,
        inner % 4 == 0,
    ensures
        ({
            let after = c.after_write(inner as u32, val, alias);
            let counted = |was: u32, now: u32, at: int|
                now as int == (if inner == at {
                    (was + 1) % 0x1_0000_0000
                } else {
                    was as int
                });
            &&& counted(c.trig_ctrl, after.trig_ctrl, 0x0C)
            &&& counted(c.trig_write_addr, after.trig_write_addr, 0x18)
            &&& counted(c.trig_trans_count, after.trig_trans_count, 0x1C)
            &&& counted(c.trig_al2_trans, after.trig_al2_trans, 0x24)
            &&& counted(c.trig_read_addr, after.trig_read_addr, 0x3C)
            &&& after.trig_chain == c.trig_chain
            &&& after.trig_multi == c.trig_multi
        }),
{
    reveal(wadd);
}

/// A channel keeps note of which transmit queues of the second block of state
/// machines its write address was ever set to.
pub proof fn law_named_queues_are_noted(c: Channel, inner: int, val: u32, alias: u32, i: int)
    requires
        0 <= inner < 0x40,
        inner % 4 == 0,
        0 <= i < 32,
    ensures
        ({
            let after = c.after_write(inner as u32, val, alias);
            bit(after.ever_wrote_pio1_txf_mask, i) == (bit(c.ever_wrote_pio1_txf_mask, i) || (register_of(inner) == 1
                && i < 4 && after.write_addr == 0x5030_0010 + 4 * i))
        }),
{
    lemma_mask_bits(i as u32);
    let m = c.ever_wrote_pio1_txf_mask;
    lemma_bit_ops(m, 1, i as u32, 0);
    lemma_bit_ops(m, 2, i as u32, 0);
    lemma_bit_ops(m, 4, i as u32, 0);
    lemma_bit_ops(m, 8, i as u32, 0);
    lemma_bit_ops(m, 0, i as u32, 0);
}

/// A trigger of many counts once for each channel that it names.
pub proof fn law_many_are_counted(d: Dma, mask: u32, k: int)
    requires
        0 <= k < 12,
    ensures
        d.after_write(0x430, mask, 0).channels[k].trig_multi as int == (if bit(mask, k) {
            (d.channels[k].trig_multi + 1) % 0x1_0000_0000
        } else {
            d.channels[k].trig_multi as int
        }),
{
    crate::dma_laws::lemma_triggered(d, 12, mask, k);
    reveal(wadd);
}

proof fn lemma_pace(ctrl: u32)
    by (bit_vector)
    ensures
        (ctrl >> 15) & 0x3F == ctrl / 0x8000 % 64,
{
}

/// A channel may move when it is busy and the line that its control word names
/// asks.
pub proof fn law_pacing(d: Dma, n: int, lines: u64)
    requires
        0 <= n < 12,
    ensures
        d.ready(n, lines) == (d.channels[n].busy && (lines >> ((d.channels[n].ctrl as int / 0x8000 % 64) as u64)) & 1
            == 1),
{
    lemma_pace(d.channels[n].ctrl);
}

/// The timers, the sniffer and the interrupt registers take a write bit by bit
/// through every port, each by itself; a channel's count is shown a second
/// time further up.
pub proof fn law_controller_registers(d: Dma, val: u32, alias: u32, i: int, n: int, k: int)
    requires
        0 <= i < 32,
        0 <= n < 4,
        0 <= k < 12,
    ensures
        ({
            let timer = (0x420 + 4 * n) as u32;
            let after = d.after_write(timer, val, alias);
            &&& takes(d.word_at(timer), after.word_at(timer), val, alias, i, true)
            &&& forall|m: int|
                #![trigger after.timers[m]]
                0 <= m < 4 && m != n ==> after.timers[m] == d.timers[m]
            &&& after == (Dma { timers: after.timers, ..d })
        }),
        takes(d.word_at(0x434), d.after_write(0x434, val, alias).word_at(0x434), val, alias, i, true),
        takes(d.word_at(0x438), d.after_write(0x438, val, alias).word_at(0x438), val, alias, i, true),
        d.after_write(0x434, val, alias).word_at(0x438) == d.word_at(0x438),
        d.after_write(0x438, val, alias).word_at(0x434) == d.word_at(0x434),
        takes(d.word_at(0x404), d.after_write(0x404, val, alias).word_at(0x404), val, alias, i, i < 12),
        takes(d.word_at(0x408), d.after_write(0x408, val, alias).word_at(0x408), val, alias, i, i < 12),
        takes(d.word_at(0x414), d.after_write(0x414, val, alias).word_at(0x414), val, alias, i, i < 12),
        takes(d.word_at(0x418), d.after_write(0x418, val, alias).word_at(0x418), val, alias, i, i < 12),
        d.word_at((0x804 + 0x40 * k) as u32) == d.channels[k].trans_count,
{
    lemma_mask_bits(i as u32);
    lemma_ported(d.timers[n], val, alias, 0, i);
    lemma_ported(d.sniff_ctrl, val, alias, 0, i);
    lemma_ported(d.sniff_data, val, alias, 0, i);
    lemma_ported(d.inte0, val, alias, 0xFFF, i);
    lemma_ported(d.intf0, val, alias, 0xFFF, i);
    lemma_ported(d.inte1, val, alias, 0xFFF, i);
    lemma_ported(d.intf1, val, alias, 0xFFF, i);
}

} // verus!
