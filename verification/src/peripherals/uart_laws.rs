//! What the serial port queues, sends and reports.
use vstd::arithmetic::div_mod::{lemma_fundamental_div_mod, lemma_fundamental_div_mod_converse};
use vstd::prelude::*;

use crate::bits::{bit, lemma_bit_ops};
use crate::clocks::ClockTree;
use crate::fifo::{law_fifo_drop_front, law_fifo_push_appends};
use crate::peripherals::laws::{lemma_fields, lemma_mask_bits, lemma_ported, ported, takes};
use crate::peripherals::uart::{UartState, UartView};

verus! {

/// The port is on and so is its transmitter.
pub open spec fn may_send(u: UartState) -> bool {
    bit(u.word_at(0x30), 0) && bit(u.word_at(0x30), 8)
}

/// Bytes that the transmit queue takes.
pub open spec fn room(u: UartState) -> int {
    if bit(u.word_at(0x2C), 4) {
        16
    } else {
        1
    }
}

/// The interrupt level of the transmit queue, in eighths of its size.
pub open spec fn level_in_eighths(u: UartState) -> int {
    let select = u.word_at(0x34) as int % 8;
    if select == 0 {
        1
    } else if select == 1 {
        2
    } else if select == 3 {
        6
    } else if select == 4 {
        7
    } else {
        4
    }
}

/// Each register holds its own bits and takes a write bit by bit; the clear
/// register drops the raised interrupts that are written as one; the masked
/// word shows what is both raised and let through.
pub proof fn law_uart_registers(u: UartState, val: u32, alias: u32, i: int)
    requires
        0 <= i < 32,
    ensures
        takes(u.word_at(0x24), u.after_write(0x24, val, alias).word_at(0x24), val, alias, i, i < 16),
        takes(u.word_at(0x28), u.after_write(0x28, val, alias).word_at(0x28), val, alias, i, i < 6),
        takes(u.word_at(0x2C), u.after_write(0x2C, val, alias).word_at(0x2C), val, alias, i, i < 8),
        takes(u.word_at(0x30), u.after_write(0x30, val, alias).word_at(0x30), val, alias, i, i < 16),
        takes(u.word_at(0x34), u.after_write(0x34, val, alias).word_at(0x34), val, alias, i, i < 6),
        takes(u.word_at(0x38), u.after_write(0x38, val, alias).word_at(0x38), val, alias, i, i < 11),
        takes(u.word_at(0x48), u.after_write(0x48, val, alias).word_at(0x48), val, alias, i, i < 3),
        bit(u.after_write(0x44, val, alias).word_at(0x3C), i) == (bit(u.word_at(0x3C), i) && !ported(
            false,
            bit(val, i),
            alias,
        )),
        bit(u.word_at(0x40), i) == (bit(u.word_at(0x3C), i) && bit(u.word_at(0x38), i)),
{
    lemma_mask_bits(i as u32);
    lemma_ported(u.ibrd, val, alias, 0xFFFF, i);
    lemma_ported(u.fbrd, val, alias, 0x3F, i);
    lemma_ported(u.lcr_h, val, alias, 0xFF, i);
    lemma_ported(u.cr, val, alias, 0xFFFF, i);
    lemma_ported(u.ifls, val, alias, 0x3F, i);
    lemma_ported(u.imsc, val, alias, 0x7FF, i);
    lemma_ported(u.dmacr, val, alias, 0x7, i);
    lemma_bit_ops(u.ris, crate::bits::aliased(0, val, alias), i as u32, 0);
    lemma_bit_ops(u.ris, u.imsc, i as u32, 0);
}

/// A write to a register leaves the other registers alone. The masked word
/// and the flags follow what they are made of; the raised word and the
/// read-only registers change by no write but that to the clear register.
pub proof fn law_uart_registers_are_apart(u: UartState, at: u32, other: u32, val: u32, alias: u32)
    requires
        at != other,
        other != 0x18 && other != 0x40,
        !(at == 0x44 && other == 0x3C),
    ensures
        u.after_write(at, val, alias).word_at(other) == u.word_at(other),
        at != 0x00 && at != 0x2C ==> u.after_write(at, val, alias).tx == u.tx,
        at == 0x18 || at == 0x3C || at == 0x40 || at >= 0x4C ==> u.after_write(at, val, alias) == u,
{
}

/// A byte that is written to a port that may send joins the end of the queue
/// if there is room, and is recorded either way; one that is off takes
/// nothing.
pub proof fn law_uart_takes_bytes(u: UartView, val: u32, alias: u32)
    requires
        u.state.tx.count <= 16,
    ensures
        ({
            let before = u.state.tx.items();
            let after = u.after_write(0x00, val, alias);
            let byte = (val as int % 256) as u32;
            &&& !may_send(u.state) ==> after == u
            &&& may_send(u.state) ==> after.tx_log == u.tx_log.push(byte as u8)
            &&& may_send(u.state) && before.len() < room(u.state) ==> after.state.tx.items() == before.push(byte)
            &&& may_send(u.state) && before.len() >= room(u.state) ==> after.state == u.state
        }),
{
    lemma_fields(u.state.cr);
    lemma_fields(u.state.lcr_h);
    lemma_fields(val);
    law_fifo_push_appends(u.state.tx, val & 0xFF, u.state.capacity());
}

/// Turning the queues off keeps the oldest byte only; a write that leaves
/// them on keeps every byte.
pub proof fn law_uart_queue_is_cut(u: UartState, val: u32, alias: u32)
    requires
        u.tx.count <= 16,
    ensures
        ({
            let after = u.after_write(0x2C, val, alias);
            let keep = if room(after) == 1 && u.tx.items().len() > 1 {
                1
            } else {
                u.tx.items().len() as int
            };
            after.tx.items() == u.tx.items().take(keep)
        }),
{
    let after = u.after_write(0x2C, val, alias);
    lemma_fields(after.lcr_h);
    let keep = if room(after) == 1 && u.tx.items().len() > 1 {
        1
    } else {
        u.tx.items().len() as int
    };
    assert(after.tx.items() =~= u.tx.items().take(keep));
}

/// The flags: nothing received ever; busy while something is queued, else
/// empty; full when there is no more room.
pub proof fn law_uart_flags(u: UartState, i: int)
    requires
        0 <= i < 32,
    ensures
        bit(u.word_at(0x18), i) == (i == 4 || (i == 3 && u.tx.count > 0) || (i == 7 && u.tx.count == 0) || (i == 5
            && u.tx.count >= room(u))),
{
    lemma_fields(u.lcr_h);
    lemma_mask_bits(i as u32);
    let a = if u.tx.count > 0 {
        0x08u32
    } else {
        0x80u32
    };
    let b = if u.tx.count >= u.capacity() {
        0x20u32
    } else {
        0u32
    };
    lemma_bit_ops(0x10, a, i as u32, 0);
    lemma_bit_ops(0x10 | a, b, i as u32, 0);
}

/// The time of a byte: ten bits at the rate that the peripheral clock gives,
/// four times its frequency over the divisor in sixty-fourths, both rounded
/// down to whole numbers, and at least one clock.
pub proof fn law_uart_rate(u: UartState, tree: ClockTree, baud: int)
    requires
        ({
            let divisor = 64 * u.word_at(0x24) + u.word_at(0x28);
            divisor > 0 && baud * divisor <= 4 * tree.peri_clk_hz < (baud + 1) * divisor
        }),
    ensures
        ({
            let n = u.clocks_per_byte(tree) as int;
            &&& baud > 0 && 10 * tree.sys_clk_hz >= baud ==> n * baud <= 10 * tree.sys_clk_hz < (n + 1) * baud
            &&& baud > 0 && 10 * tree.sys_clk_hz < baud ==> n == 1
            &&& baud == 0 ==> n == 0xFFFF_FFFF
        }),
{
    reveal(UartState::clocks_per_byte);
    let d = u.ibrd * 64 + u.fbrd;
    let p = tree.peri_clk_hz * 4;
    assert(d * baud == baud * d) by (nonlinear_arith);
    assert((baud + 1) * d == baud * d + d) by (nonlinear_arith);
    lemma_fundamental_div_mod_converse(p, d, baud, p - baud * d);
    if baud > 0 {
        let s = tree.sys_clk_hz * 10;
        lemma_fundamental_div_mod(s, baud);
        let q = s / baud;
        assert(baud * q == q * baud) by (nonlinear_arith);
        assert((q + 1) * baud == q * baud + baud) by (nonlinear_arith);
        if q == 0 {
            assert(baud * q == 0) by (nonlinear_arith)
                requires
                    q == 0,
            ;
        }
        assert(s < baud ==> q == 0) by (nonlinear_arith)
            requires
                q == s / baud,
                baud > 0,
                s >= 0,
        ;
    } else {
        assert(baud == 0) by (nonlinear_arith)
            requires
                baud <= 0,
                p >= 0,
                p < (baud + 1) * d,
                d > 0,
        ;
    }
}

/// A port that was given no divisor sends a byte with every clock.
pub proof fn law_uart_without_divisor(u: UartState, tree: ClockTree)
    requires
        u.word_at(0x24) == 0,
        u.word_at(0x28) == 0,
    ensures
        u.clocks_per_byte(tree) == 1,
{
    reveal(UartState::clocks_per_byte);
}

/// In the time of `k` bytes the `k` oldest leave, what is over counts for the
/// next, and an emptied port starts afresh. The transmit interrupt is raised
/// when what is left is no more than the selected part of the queue.
pub proof fn law_uart_bytes_leave(u: UartState, cycles: u32, tree: ClockTree, k: int)
    requires
        may_send(u),
        0 < u.tx.count <= 16,
        cycles > 0,
        u.tx_cycles + cycles < 0x1_0000_0000_0000_0000,
        k * u.clocks_per_byte(tree) <= u.tx_cycles + cycles < (k + 1) * u.clocks_per_byte(tree),
    ensures
        ({
            let after = u.after_tick(cycles, tree);
            let left = after.tx.items();
            &&& k < u.tx.count ==> left == u.tx.items().skip(k) && after.tx_cycles == u.tx_cycles + cycles - k
                * u.clocks_per_byte(tree)
            &&& k >= u.tx.count ==> left.len() == 0 && after.tx_cycles == 0
            &&& forall|i: int|
                #![trigger bit(after.word_at(0x3C), i)]
                0 <= i < 32 ==> (bit(after.word_at(0x3C), i) == (bit(u.word_at(0x3C), i) || (i == 5 && 8 * left.len()
                    <= room(u) * level_in_eighths(u))))
            &&& forall|at: u32|
                #![trigger after.word_at(at)]
                at != 0x18 && at != 0x3C && at != 0x40 ==> after.word_at(at) == u.word_at(at)
        }),
{
    let per = u.clocks_per_byte(tree) as int;
    let total = u.tx_cycles + cycles;
    let after = u.after_tick(cycles, tree);
    lemma_fields(u.cr);
    lemma_fields(u.lcr_h);
    lemma_fields(u.ifls);
    assert((k + 1) * per == k * per + per) by (nonlinear_arith);
    assert(per * k == k * per) by (nonlinear_arith);
    lemma_fundamental_div_mod_converse(total, per, k, total - k * per);
    if k < u.tx.count {
        assert(k >= 0) by (nonlinear_arith)
            requires
                total >= 0,
                per > 0,
                total < (k + 1) * per,
        ;
        law_fifo_drop_front(u.tx, k as u8);
    }
    assert forall|i: int| #![trigger bit(after.word_at(0x3C), i)] 0 <= i < 32 implies (bit(after.word_at(0x3C), i) == (
    bit(u.word_at(0x3C), i) || (i == 5 && 8 * after.tx.items().len() <= room(u) * level_in_eighths(u)))) by {
        lemma_mask_bits(i as u32);
        lemma_bit_ops(u.ris, 0x20, i as u32, 0);
    }
}

/// A port that may not send, or has nothing to send, stands still.
pub proof fn law_uart_stands_still(u: UartState, cycles: u32, tree: ClockTree)
    requires
        !may_send(u) || u.tx.count == 0 || cycles == 0,
    ensures
        u.after_tick(cycles, tree) == u,
{
    lemma_fields(u.cr);
}

/// The interrupt line of the port, and no other, is raised while a raised
/// interrupt is let through.
pub proof fn law_uart_interrupt(u: UartState, irqs: u32, i: int)
    requires
        0 <= i < 32,
        u.irq < 32,
    ensures
        bit(u.routed(irqs), i) == (bit(irqs, i) || (i == u.irq && u.word_at(0x40) != 0)),
{
    lemma_bit_ops(irqs, 0, i as u32, u.irq);
}

/// A port out of reset is off, empty, and has its interrupt level at one
/// half.
pub proof fn law_uart_reset(irq: u32, at: u32)
    ensures
        ({
            let u = UartState::at_reset(irq);
            &&& at < 0xFE0 && at != 0x18 && at != 0x34 ==> u.word_at(at) == 0
            &&& u.word_at(0x34) == 0x12
            &&& level_in_eighths(u) == 4
            &&& u.tx.items().len() == 0
            &&& u.tx_cycles == 0
            &&& u.irq == irq
        }),
{
    lemma_bit_ops(0, 0, 0, 0);
}

} // verus!
