//! What the two-wire controller queues and reports.
use vstd::prelude::*;

use crate::bits::{bit, lemma_bit_ops};
use crate::fifo::{law_fifo_drop_front, law_fifo_push_appends};
use crate::peripherals::i2c::{cleared_by, I2cRegs};
use crate::peripherals::laws::{lemma_fields, lemma_mask_bits, lemma_ported, takes};

verus! {

pub open spec fn is_on(c: I2cRegs) -> bool {
    bit(c.word_at(0x6C), 0)
}

/// Whether a read at `at` clears interrupt `i`: each of twelve has a register
/// of its own but for number two and number four, and one register clears
/// all.
pub open spec fn clears(at: u32, i: int) -> bool {
    ||| at == 0x40
    ||| at == 0x44 && i == 0
    ||| at == 0x48 && i == 1
    ||| at == 0x4C && i == 3
    ||| 0x50 <= at <= 0x68 && at % 4 == 0 && i == 5 + (at - 0x50) / 4
}

/// Each register holds its own bits and takes a write bit by bit. The target
/// address can be written only while the controller is off.
pub proof fn law_i2c_registers(c: I2cRegs, val: u32, alias: u32, i: int)
    requires
        0 <= i < 32,
    ensures
        takes(c.word_at(0x00), c.after_write(0x00, val, alias).word_at(0x00), val, alias, i, i < 10),
        !is_on(c) ==> takes(c.word_at(0x04), c.after_write(0x04, val, alias).word_at(0x04), val, alias, i, i < 12),
        is_on(c) ==> c.after_write(0x04, val, alias) == c,
        takes(c.word_at(0x08), c.after_write(0x08, val, alias).word_at(0x08), val, alias, i, i < 10),
        takes(c.word_at(0x14), c.after_write(0x14, val, alias).word_at(0x14), val, alias, i, i < 16),
        takes(c.word_at(0x18), c.after_write(0x18, val, alias).word_at(0x18), val, alias, i, i < 16),
        takes(c.word_at(0x1C), c.after_write(0x1C, val, alias).word_at(0x1C), val, alias, i, i < 16),
        takes(c.word_at(0x20), c.after_write(0x20, val, alias).word_at(0x20), val, alias, i, i < 16),
        takes(c.word_at(0x30), c.after_write(0x30, val, alias).word_at(0x30), val, alias, i, i < 13),
        takes(c.word_at(0x38), c.after_write(0x38, val, alias).word_at(0x38), val, alias, i, i < 8),
        takes(c.word_at(0x3C), c.after_write(0x3C, val, alias).word_at(0x3C), val, alias, i, i < 8),
        takes(c.word_at(0x6C), c.after_write(0x6C, val, alias).word_at(0x6C), val, alias, i, i < 3),
        takes(c.word_at(0x7C), c.after_write(0x7C, val, alias).word_at(0x7C), val, alias, i, i < 16),
        takes(c.word_at(0xA0), c.after_write(0xA0, val, alias).word_at(0xA0), val, alias, i, i < 8),
        bit(c.word_at(0x2C), i) == (bit(c.word_at(0x34), i) && bit(c.word_at(0x30), i)),
        bit(c.word_at(0x9C), i) == (i == 0 && is_on(c)),
{
    lemma_mask_bits(i as u32);
    lemma_fields(c.enable);
    lemma_ported(c.con, val, alias, 0x3FF, i);
    lemma_ported(c.tar, val, alias, 0xFFF, i);
    lemma_ported(c.sar, val, alias, 0x3FF, i);
    lemma_ported(c.ss_scl_hcnt, val, alias, 0xFFFF, i);
    lemma_ported(c.ss_scl_lcnt, val, alias, 0xFFFF, i);
    lemma_ported(c.fs_scl_hcnt, val, alias, 0xFFFF, i);
    lemma_ported(c.fs_scl_lcnt, val, alias, 0xFFFF, i);
    lemma_ported(c.intr_mask, val, alias, 0x1FFF, i);
    lemma_ported(c.rx_tl, val, alias, 0xFF, i);
    lemma_ported(c.tx_tl, val, alias, 0xFF, i);
    lemma_ported(c.enable, val, alias, 0x7, i);
    lemma_ported(c.sda_hold, val, alias, 0xFFFF, i);
    lemma_ported(c.fs_spklen, val, alias, 0xFF, i);
    lemma_bit_ops(c.raw_intr, c.intr_mask, i as u32, 0);
    lemma_bit_ops(c.enable, 1, i as u32, 0);
}

/// A write to a register other than the command register leaves the other
/// registers alone, and the queues too unless it switches the controller off,
/// which empties both.
pub proof fn law_i2c_registers_are_apart(c: I2cRegs, at: u32, other: u32, val: u32, alias: u32)
    requires
        at != other,
        at != 0x10,
    ensures
        ({
            let after = c.after_write(at, val, alias);
            &&& at != 0x6C && !(at == 0x30 && other == 0x2C) ==> after.word_at(other) == c.word_at(other)
            &&& at == 0x6C && other != 0x10 && other != 0x70 && other != 0x74 && other != 0x78 && other != 0x9C
                ==> after.word_at(other) == c.word_at(other)
            &&& at != 0x6C || is_on(after) ==> after.tx == c.tx && after.rx == c.rx
            &&& at == 0x6C && !is_on(after) ==> after.tx.items().len() == 0 && after.rx.items().len() == 0
        }),
{
    lemma_fields(c.after_write(at, val, alias).enable);
}

/// A controller that is off takes no command. One that is on shows activity
/// and a start; at an address that is silent it also shows an abort, its
/// cause and a stop, and queues nothing.
pub proof fn law_i2c_addressing(c: I2cRegs, cmd: u32, alias: u32, i: int)
    requires
        0 <= i < 32,
    ensures
        ({
            let after = c.after_write(0x10, cmd, alias);
            &&& !is_on(c) ==> after == c
            &&& is_on(c) && c.word_at(0x04) as int % 128 != 0x3C ==> {
                &&& bit(after.word_at(0x34), i) == (bit(c.word_at(0x34), i) || i == 6 || i == 8 || i == 9 || i == 10)
                &&& bit(after.word_at(0x80), i) == (bit(c.word_at(0x80), i) || i == 0)
                &&& after.tx == c.tx
                &&& after.rx == c.rx
            }
            &&& is_on(c) && c.word_at(0x04) as int % 128 == 0x3C ==> {
                &&& after.word_at(0x80) == c.word_at(0x80)
                &&& bit(after.word_at(0x34), 8)
                &&& bit(after.word_at(0x34), 10)
            }
        }),
{
    lemma_mask_bits(i as u32);
    lemma_fields(c.enable);
    lemma_fields(c.tar);
    lemma_bit_ops(c.raw_intr, 0x500, i as u32, 0);
    lemma_bit_ops(c.raw_intr | 0x500, 0x240, i as u32, 0);
    lemma_bit_ops(c.tx_abrt_source, 1, i as u32, 0);
    lemma_command_bits(c, cmd, 8);
    lemma_command_bits(c, cmd, 10);
}

/// The raised interrupts after an acknowledged command.
proof fn lemma_command_bits(c: I2cRegs, cmd: u32, i: int)
    requires
        0 <= i < 32,
    ensures
        is_on(c) && c.word_at(0x04) as int % 128 == 0x3C ==> ({
            let after = c.after_command(cmd);
            bit(after.raw_intr, i) == (bit(c.raw_intr, i) || i == 8 || i == 10 || (i == 9 && bit(cmd, 9)) || (if bit(
                cmd,
                8,
            ) {
                (i == 1 && c.rx.count >= 16) || (i == 2 && after.rx.count > c.rx_tl)
            } else {
                (i == 3 && c.tx.count >= 16) || (i == 4 && after.tx.count <= c.tx_tl)
            }))
        }),
{
    lemma_mask_bits(i as u32);
    lemma_fields(c.enable);
    lemma_fields(c.tar);
    lemma_fields(cmd);
    let r = c.raw_intr | 0x500;
    let over = if bit(cmd, 8) {
        if c.rx.count >= 16 {
            r | 0x002
        } else {
            r
        }
    } else if c.tx.count >= 16 {
        r | 0x008
    } else {
        r
    };
    let full = over | 0x004;
    let empty = over | 0x010;
    lemma_bit_ops(c.raw_intr, 0x500, i as u32, 0);
    lemma_bit_ops(r, 0x002, i as u32, 0);
    lemma_bit_ops(r, 0x008, i as u32, 0);
    lemma_bit_ops(over, 0x004, i as u32, 0);
    lemma_bit_ops(over, 0x010, i as u32, 0);
    lemma_bit_ops(over, 0x200, i as u32, 0);
    lemma_bit_ops(full, 0x200, i as u32, 0);
    lemma_bit_ops(empty, 0x200, i as u32, 0);
}

/// An acknowledged command. A read brings in one byte of ones; a write queues
/// its low byte. A queue without room overruns. A receive queue that is
/// fuller than its level and a transmit queue that is no fuller than its
/// level show it, and a command that asks for a stop shows one.
pub proof fn law_i2c_commands(c: I2cRegs, cmd: u32, alias: u32, i: int)
    requires
        is_on(c),
        c.word_at(0x04) as int % 128 == 0x3C,
        c.tx.count <= 16,
        c.rx.count <= 16,
        0 <= i < 32,
    ensures
        ({
            let after = c.after_write(0x10, cmd, alias);
            let received = c.rx.items();
            let queued = c.tx.items();
            if bit(cmd, 8) {
                &&& after.tx == c.tx
                &&& received.len() < 16 ==> after.rx.items() == received.push(0xFF)
                &&& received.len() >= 16 ==> after.rx == c.rx
                &&& bit(after.word_at(0x34), i) == (bit(c.word_at(0x34), i) || i == 8 || i == 10 || (i == 9 && bit(
                    cmd,
                    9,
                )) || (i == 1 && received.len() >= 16) || (i == 2 && after.rx.items().len() > c.word_at(0x38)))
            } else {
                &&& after.rx == c.rx
                &&& queued.len() < 16 ==> after.tx.items() == queued.push((cmd as int % 256) as u32)
                &&& queued.len() >= 16 ==> after.tx == c.tx
                &&& bit(after.word_at(0x34), i) == (bit(c.word_at(0x34), i) || i == 8 || i == 10 || (i == 9 && bit(
                    cmd,
                    9,
                )) || (i == 3 && queued.len() >= 16) || (i == 4 && after.tx.items().len() <= c.word_at(0x3C)))
            }
        }),
{
    lemma_fields(c.enable);
    lemma_fields(c.tar);
    lemma_fields(cmd);
    lemma_command_bits(c, cmd, i);
    law_fifo_push_appends(c.rx, 0xFF, 16);
    law_fifo_push_appends(c.tx, cmd & 0xFF, 16);
}

/// Reading the data register gives the oldest received byte and takes it; a
/// receive queue that is then no fuller than its level no longer shows it. A
/// read of an empty queue gives zero and is an underrun.
pub proof fn law_i2c_gives_bytes(c: I2cRegs, i: int)
    requires
        c.rx.count <= 16,
        0 <= i < 32,
    ensures
        ({
            let after = c.after_read(0x10);
            &&& after.tx == c.tx
            &&& c.rx.items().len() == 0 ==> {
                &&& c.word_at(0x10) == 0
                &&& after.rx == c.rx
                &&& bit(after.word_at(0x34), i) == (i == 0 || bit(c.word_at(0x34), i))
            }
            &&& c.rx.items().len() > 0 ==> {
                &&& c.word_at(0x10) == c.rx.items()[0]
                &&& after.rx.items() == c.rx.items().skip(1)
                &&& bit(after.word_at(0x34), i) == (bit(c.word_at(0x34), i) && !(i == 2 && after.rx.items().len()
                    <= c.word_at(0x38)))
            }
        }),
{
    lemma_mask_bits(i as u32);
    lemma_bit_ops(c.raw_intr, 0x1, i as u32, 0);
    lemma_bit_ops(c.raw_intr, 0x4, i as u32, 0);
    if c.rx.count > 0 {
        law_fifo_drop_front(c.rx, 1);
    }
}

/// Reading a clear register shows whether its interrupt was raised and drops
/// it, and no other read but that of the data drops any; the cause of an
/// abort goes with the abort.
pub proof fn law_i2c_clear_registers(c: I2cRegs, at: u32, i: int)
    requires
        0 <= i < 32,
        at != 0x10,
    ensures
        bit(c.after_read(at).word_at(0x34), i) == (bit(c.word_at(0x34), i) && !clears(at, i)),
        at != 0x40 && clears(at, i) ==> c.word_at(at) == (if bit(c.word_at(0x34), i) {
            1u32
        } else {
            0u32
        }),
        at == 0x40 && bit(c.word_at(0x34), i) ==> c.word_at(at) == 1,
        c.after_read(at).word_at(0x80) == (if at == 0x40 || at == 0x54 {
            0u32
        } else {
            c.word_at(0x80)
        }),
        c.after_read(at).tx == c.tx,
        c.after_read(at).rx == c.rx,
{
    lemma_mask_bits(i as u32);
    lemma_bit_ops(c.raw_intr, cleared_by(at), i as u32, 0);
    lemma_single_interrupt(c.raw_intr);
    lemma_bit_ops(0, 0, i as u32, 0);
}

proof fn lemma_single_interrupt(r: u32)
    by (bit_vector)
    ensures
        r & 0x001 != 0 <==> (r >> 0) & 1 == 1,
        r & 0x002 != 0 <==> (r >> 1) & 1 == 1,
        r & 0x008 != 0 <==> (r >> 3) & 1 == 1,
        r & 0x020 != 0 <==> (r >> 5) & 1 == 1,
        r & 0x040 != 0 <==> (r >> 6) & 1 == 1,
        r & 0x080 != 0 <==> (r >> 7) & 1 == 1,
        r & 0x100 != 0 <==> (r >> 8) & 1 == 1,
        r & 0x200 != 0 <==> (r >> 9) & 1 == 1,
        r & 0x400 != 0 <==> (r >> 10) & 1 == 1,
        r & 0x800 != 0 <==> (r >> 11) & 1 == 1,
        r & 0xFFFF_FFFF == r,
{
}

/// The status word shows activity, room to send, nothing to send, something
/// received, and no room to receive; the level registers count the queues.
pub proof fn law_i2c_status(c: I2cRegs, i: int)
    requires
        0 <= i < 32,
    ensures
        bit(c.word_at(0x70), i) == ((i == 0 && bit(c.word_at(0x34), 8)) || (i == 1 && c.tx.count < 16) || (i == 2
            && c.tx.count == 0) || (i == 3 && c.rx.count > 0) || (i == 4 && c.rx.count >= 16)),
        c.word_at(0x74) == c.tx.items().len(),
        c.word_at(0x78) == c.rx.items().len(),
{
    let a = if c.raw_intr & 0x100 != 0 {
        0x1u32
    } else {
        0u32
    };
    let b = if c.tx.count < 16 {
        0x2u32
    } else {
        0u32
    };
    let d = if c.tx.count == 0 {
        0x4u32
    } else {
        0u32
    };
    let e = if c.rx.count > 0 {
        0x8u32
    } else {
        0u32
    };
    let f = if c.rx.count >= 16 {
        0x10u32
    } else {
        0u32
    };
    lemma_fields(c.raw_intr);
    lemma_mask_bits(i as u32);
    lemma_bit_ops(a, b, i as u32, 0);
    lemma_bit_ops(a | b, d, i as u32, 0);
    lemma_bit_ops(a | b | d, e, i as u32, 0);
    lemma_bit_ops(a | b | d | e, f, i as u32, 0);
}

/// The interrupt line of the controller, and no other, is raised while a
/// raised interrupt is let through.
pub proof fn law_i2c_interrupt(c: I2cRegs, irqs: u32, i: int)
    requires
        0 <= i < 32,
        c.irq < 32,
    ensures
        bit(c.routed(irqs), i) == (bit(irqs, i) || (i == c.irq && c.word_at(0x2C) != 0)),
{
    lemma_bit_ops(irqs, 0, i as u32, c.irq);
}

} // verus!
