//! What the synchronous serial port queues, sends and reports.
use vstd::arithmetic::div_mod::{lemma_fundamental_div_mod, lemma_fundamental_div_mod_converse};
use vstd::prelude::*;

use crate::bits::{bit, lemma_bit_ops};
use crate::clocks::ClockTree;
use crate::fifo::{law_fifo_drop_front, law_fifo_push_appends};
use crate::peripherals::laws::{lemma_fields, lemma_mask_bits, lemma_ported, ported, takes};
use crate::peripherals::spi::SpiRegs;

verus! {

pub open spec fn is_on(s: SpiRegs) -> bool {
    bit(s.word_at(0x04), 1)
}

pub open spec fn loops_back(s: SpiRegs) -> bool {
    bit(s.word_at(0x04), 0)
}

/// Bits of a word on the wire.
pub open spec fn width(s: SpiRegs) -> int {
    s.word_at(0x00) as int % 16 + 1
}

/// Bit `i` of the raised interrupts, given what was raised before and how many
/// words the queues hold: bit 3 while at most half of the transmit queue is
/// in use, bit 2 while at least half of the receive queue is.
pub open spec fn raised(was: bool, i: int, sending: int, received: int) -> bool {
    if i == 3 {
        sending <= 4
    } else if i == 2 {
        received >= 4
    } else {
        was
    }
}

/// Each register holds its own bits and takes a write bit by bit; the clear
/// register drops the two interrupts that are remembered; the masked word
/// shows what is both raised and let through.
pub proof fn law_spi_registers(s: SpiRegs, val: u32, alias: u32, i: int)
    requires
        0 <= i < 32,
    ensures
        takes(s.word_at(0x00), s.after_write(0x00, val, alias).word_at(0x00), val, alias, i, i < 16),
        takes(s.word_at(0x04), s.after_write(0x04, val, alias).word_at(0x04), val, alias, i, i < 4),
        takes(s.word_at(0x10), s.after_write(0x10, val, alias).word_at(0x10), val, alias, i, 1 <= i < 8),
        takes(s.word_at(0x14), s.after_write(0x14, val, alias).word_at(0x14), val, alias, i, i < 4),
        takes(s.word_at(0x24), s.after_write(0x24, val, alias).word_at(0x24), val, alias, i, i < 2),
        bit(s.after_write(0x20, val, alias).word_at(0x18), i) == (bit(s.word_at(0x18), i) && !(i < 2 && ported(
            false,
            bit(val, i),
            alias,
        ))),
        bit(s.word_at(0x1C), i) == (bit(s.word_at(0x18), i) && bit(s.word_at(0x14), i)),
{
    lemma_mask_bits(i as u32);
    lemma_ported(s.cr0, val, alias, 0xFFFF, i);
    lemma_ported(s.cr1, val, alias, 0xF, i);
    lemma_ported(s.cpsr, val, alias, 0xFE, i);
    lemma_ported(s.imsc, val, alias, 0xF, i);
    lemma_ported(s.dmacr, val, alias, 0x3, i);
    lemma_ported(0, val, alias, 0x3, i);
    lemma_bit_ops(0, 0, i as u32, 0);
    lemma_bit_ops(s.ris, crate::bits::aliased(0, val, alias) & 0x3, i as u32, 0);
    lemma_bit_ops(s.ris, s.imsc, i as u32, 0);
}

/// A write to a register other than the data register leaves the other
/// registers and the queues alone.
pub proof fn law_spi_registers_are_apart(s: SpiRegs, at: u32, other: u32, val: u32, alias: u32)
    requires
        at != other,
        at != 0x08,
        !(at == 0x14 && other == 0x1C),
        !(at == 0x20 && (other == 0x18 || other == 0x1C)),
    ensures
        s.after_write(at, val, alias).word_at(other) == s.word_at(other),
        s.after_write(at, val, alias).tx == s.tx,
        s.after_write(at, val, alias).rx == s.rx,
{
}

/// A port that is switched off, and only such a one, forgets how far the word
/// on the wire had come.
pub proof fn law_spi_switched_off(s: SpiRegs, val: u32, alias: u32)
    ensures
        s.after_write(0x04, val, alias).tx_cycles == (if is_on(s.after_write(0x04, val, alias)) {
            s.tx_cycles
        } else {
            0
        }),
{
    lemma_fields(s.after_write(0x04, val, alias).cr1);
}

/// A word that is written to a port that is on is cut to its width and joins
/// the end of the transmit queue; with loopback it joins the receive queue
/// too, and a receive queue without room is an overrun. A word without room
/// in the transmit queue is lost.
pub proof fn law_spi_takes_words(s: SpiRegs, val: u32, alias: u32)
    requires
        s.tx.count <= 16,
        s.rx.count <= 16,
    ensures
        ({
            let after = s.after_write(0x08, val, alias);
            let word = s.framed(val);
            let sent = s.tx.items().len() < 8;
            &&& !is_on(s) ==> after == s
            &&& is_on(s) ==> {
                &&& after.tx.items() == (if sent {
                    s.tx.items().push(word)
                } else {
                    s.tx.items()
                })
                &&& after.rx.items() == (if sent && loops_back(s) && s.rx.items().len() < 8 {
                    s.rx.items().push(word)
                } else {
                    s.rx.items()
                })
                &&& forall|i: int|
                    #![trigger bit(after.word_at(0x18), i)]
                    0 <= i < 32 ==> bit(after.word_at(0x18), i) == raised(
                        bit(s.word_at(0x18), i) || (i == 0 && loops_back(s) && s.rx.items().len() >= 8),
                        i,
                        after.tx.items().len() as int,
                        after.rx.items().len() as int,
                    )
            }
        }),
{
    let after = s.after_write(0x08, val, alias);
    lemma_fields(s.cr1);
    law_fifo_push_appends(s.tx, s.framed(val), 8);
    law_fifo_push_appends(s.rx, s.framed(val), 8);
    if is_on(s) {
        let ris = if loops_back(s) && s.rx.count >= 8 {
            s.ris | 0x1
        } else {
            s.ris
        };
        assert forall|i: int| #![trigger bit(after.word_at(0x18), i)] 0 <= i < 32 implies bit(
            after.word_at(0x18),
            i,
        ) == raised(
            bit(s.word_at(0x18), i) || (i == 0 && loops_back(s) && s.rx.items().len() >= 8),
            i,
            after.tx.items().len() as int,
            after.rx.items().len() as int,
        ) by {
            lemma_mask_bits(i as u32);
            lemma_bit_ops(s.ris, 0x1, i as u32, 0);
            lemma_level_bits(ris, i);
        }
    }
}

/// What a level refresh makes of the raised interrupts.
proof fn lemma_level_bits(ris: u32, i: int)
    requires
        0 <= i < 32,
    ensures
        bit(ris | 8, i) == (i == 3 || bit(ris, i)),
        bit(ris & !8u32, i) == (i != 3 && bit(ris, i)),
        bit((ris | 8) | 4, i) == (i == 2 || i == 3 || bit(ris, i)),
        bit((ris | 8) & !4u32, i) == (i != 2 && (i == 3 || bit(ris, i))),
        bit((ris & !8u32) | 4, i) == (i == 2 || (i != 3 && bit(ris, i))),
        bit((ris & !8u32) & !4u32, i) == (i != 2 && i != 3 && bit(ris, i)),
{
    lemma_mask_bits(i as u32);
    lemma_bit_ops(ris, 8, i as u32, 0);
    lemma_bit_ops(ris | 8, 4, i as u32, 0);
    lemma_bit_ops(ris & !8u32, 4, i as u32, 0);
}

/// A word keeps the bits that its width covers and loses the rest.
pub proof fn law_spi_width(s: SpiRegs, val: u32, i: int)
    requires
        0 <= i < 32,
    ensures
        bit(s.framed(val), i) == (i < width(s) && bit(val, i)),
{
    lemma_fields(s.cr0);
    let n = s.frame_bits();
    lemma_bit_ops(val, ((1u32 << n) - 1) as u32, i as u32, n);
}

/// Reading the data register shows the oldest received word, or zero, and
/// takes it; no other read changes anything.
pub proof fn law_spi_gives_words(s: SpiRegs, at: u32)
    requires
        s.rx.count <= 16,
    ensures
        s.rx.items().len() == 0 ==> s.word_at(0x08) == 0 && s.after_read(0x08).rx.items().len() == 0,
        s.rx.items().len() > 0 ==> s.word_at(0x08) == s.rx.items()[0] && s.after_read(0x08).rx.items()
            == s.rx.items().skip(1),
        s.after_read(0x08).tx == s.tx,
        at != 0x08 ==> s.after_read(at) == s,
        at != 0x08 && at != 0x0C ==> s.after_read(0x08).word_at(at) == s.word_at(at),
{
    if s.rx.count > 0 {
        law_fifo_drop_front(s.rx, 1);
    }
}

/// The status word: transmit queue empty, with room; receive queue with
/// something in it, full; busy while something is left to send.
pub proof fn law_spi_status(s: SpiRegs, i: int)
    requires
        0 <= i < 32,
    ensures
        bit(s.word_at(0x0C), i) == ((i == 0 && s.tx.count == 0) || (i == 1 && s.tx.count < 8) || (i == 2 && s.rx.count
            > 0) || (i == 3 && s.rx.count >= 8) || (i == 4 && s.tx.count > 0)),
{
    let a = if s.tx.count == 0 {
        0x1
    } else {
        0x10u32
    };
    let b = if s.tx.count < 8 {
        0x2
    } else {
        0u32
    };
    let c = if s.rx.count > 0 {
        0x4
    } else {
        0u32
    };
    let d = if s.rx.count >= 8 {
        0x8
    } else {
        0u32
    };
    lemma_mask_bits(i as u32);
    lemma_bit_ops(a, b, i as u32, 0);
    lemma_bit_ops(a | b, c, i as u32, 0);
    lemma_bit_ops(a | b | c, d, i as u32, 0);
}

/// The time of a word: its bits at the rate that the peripheral clock gives,
/// its frequency over the prescaler, an even number of at least two, times
/// one more than the serial clock divider, both rounded down to whole
/// numbers, and at least one clock.
pub proof fn law_spi_rate(s: SpiRegs, tree: ClockTree, prescale: int, rate: int)
    requires
        s.word_at(0x10) as int % 256 / 2 == prescale / 2,
        prescale % 2 == 0,
        prescale >= 2,
        ({
            let divisor = prescale * (1 + s.word_at(0x00) as int / 256 % 256);
            rate * divisor <= tree.peri_clk_hz < (rate + 1) * divisor
        }),
    ensures
        ({
            let n = s.clocks_per_word(tree) as int;
            let bits = width(s) * tree.sys_clk_hz;
            &&& rate > 0 && bits >= rate ==> n * rate <= bits < (n + 1) * rate
            &&& rate > 0 && bits < rate ==> n == 1
            &&& rate == 0 ==> n == 0xFFFF_FFFF
        }),
{
    reveal(SpiRegs::clocks_per_word);
    lemma_fields(s.cr0);
    lemma_fields(s.cpsr);
    let d = prescale * (1 + s.word_at(0x00) as int / 256 % 256);
    let p = tree.peri_clk_hz as int;
    assert(d > 0) by (nonlinear_arith)
        requires
            prescale >= 2,
            d == prescale * (1 + s.word_at(0x00) as int / 256 % 256),
            0 <= s.word_at(0x00) as int / 256 % 256,
    ;
    assert(d * rate == rate * d) by (nonlinear_arith);
    assert((rate + 1) * d == rate * d + d) by (nonlinear_arith);
    lemma_fundamental_div_mod_converse(p, d, rate, p - rate * d);
    assert(p / d == rate);
    if rate > 0 {
        let bits = tree.sys_clk_hz * s.frame_bits();
        assert(bits == width(s) * tree.sys_clk_hz) by (nonlinear_arith)
            requires
                bits == tree.sys_clk_hz * s.frame_bits(),
                s.frame_bits() == width(s),
        ;
        assert(bits >= 0) by (nonlinear_arith)
            requires
                bits == tree.sys_clk_hz * s.frame_bits(),
        ;
        lemma_fundamental_div_mod(bits, rate);
        let q = bits / rate;
        assert(rate * q == q * rate) by (nonlinear_arith);
        assert((q + 1) * rate == q * rate + rate) by (nonlinear_arith);
        assert(bits < rate ==> q == 0) by (nonlinear_arith)
            requires
                q == bits / rate,
                rate > 0,
                bits >= 0,
        ;
        assert(q == 0 ==> bits < rate) by (nonlinear_arith)
            requires
                bits < q * rate + rate,
        ;
    } else {
        assert(rate == 0) by (nonlinear_arith)
            requires
                rate <= 0,
                p >= 0,
                p < (rate + 1) * d,
                d > 0,
        ;
    }
}

/// In the time of `k` words the `k` oldest leave, what is over counts for the
/// next, and an emptied port starts afresh; the level interrupts follow.
pub proof fn law_spi_words_leave(s: SpiRegs, cycles: u32, tree: ClockTree, k: int)
    requires
        is_on(s),
        s.tx.count <= 16,
        cycles > 0,
        s.tx_cycles + cycles < 0x1_0000_0000_0000_0000,
        k * s.clocks_per_word(tree) <= s.tx_cycles + cycles < (k + 1) * s.clocks_per_word(tree),
    ensures
        ({
            let after = s.after_tick(cycles, tree);
            &&& k < s.tx.count ==> after.tx.items() == s.tx.items().skip(k) && after.tx_cycles == s.tx_cycles + cycles
                - k * s.clocks_per_word(tree)
            &&& k >= s.tx.count ==> after.tx.items().len() == 0 && after.tx_cycles == 0
            &&& after.rx == s.rx
            &&& forall|i: int|
                #![trigger bit(after.word_at(0x18), i)]
                0 <= i < 32 ==> bit(after.word_at(0x18), i) == raised(
                    bit(s.word_at(0x18), i),
                    i,
                    after.tx.items().len() as int,
                    after.rx.items().len() as int,
                )
        }),
{
    let per = s.clocks_per_word(tree) as int;
    let total = s.tx_cycles + cycles;
    let after = s.after_tick(cycles, tree);
    lemma_fields(s.cr1);
    assert((k + 1) * per == k * per + per) by (nonlinear_arith);
    assert(per * k == k * per) by (nonlinear_arith);
    lemma_fundamental_div_mod_converse(total, per, k, total - k * per);
    if k < s.tx.count {
        assert(k >= 0) by (nonlinear_arith)
            requires
                total >= 0,
                per > 0,
                total < (k + 1) * per,
        ;
        law_fifo_drop_front(s.tx, k as u8);
    }
    assert forall|i: int| #![trigger bit(after.word_at(0x18), i)] 0 <= i < 32 implies bit(after.word_at(0x18), i)
        == raised(
        bit(s.word_at(0x18), i),
        i,
        after.tx.items().len() as int,
        after.rx.items().len() as int,
    ) by {
        lemma_level_bits(s.ris, i);
    }
}

/// A port that is off stands still.
pub proof fn law_spi_stands_still(s: SpiRegs, cycles: u32, tree: ClockTree)
    requires
        !is_on(s) || cycles == 0,
    ensures
        s.after_tick(cycles, tree) == s,
{
    lemma_fields(s.cr1);
}

/// The interrupt line of the port, and no other, is raised while a raised
/// interrupt is let through.
pub proof fn law_spi_interrupt(s: SpiRegs, irqs: u32, i: int)
    requires
        0 <= i < 32,
        s.irq < 32,
    ensures
        bit(s.routed(irqs), i) == (bit(irqs, i) || (i == s.irq && s.word_at(0x1C) != 0)),
{
    lemma_bit_ops(irqs, 0, i as u32, s.irq);
}

} // verus!
