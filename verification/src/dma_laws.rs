//! What the DMA controller does with addresses, counts, triggers and
//! interrupts, and that its transfers copy memory.
use vstd::prelude::*;

use crate::bits::{bit, lemma_bit_ops, wadd};
use crate::bus::laws::{in_sram, law_sram_read, law_sram_write, law_sram_write_is_local};
use crate::bus::model::BusState;
use crate::bus::service::transfer_width;
use crate::dma::{lemma_ctrl_fields, ring_next, Channel, Dma};
use crate::memory::{law_load_after_store, Width};

verus! {

/// The fields of a control word, as digits of a number.
proof fn lemma_control_digits(ctrl: u32)
    by (bit_vector)
    ensures
        ctrl & 0x1 != 0 <==> ctrl % 2 == 1,
        (ctrl >> 2) & 0x3 == ctrl / 4 % 4,
        ctrl & 0x10 != 0 <==> ctrl / 16 % 2 == 1,
        ctrl & 0x20 != 0 <==> ctrl / 32 % 2 == 1,
        (ctrl >> 6) & 0xF == ctrl / 64 % 16,
        ctrl & 0x400 != 0 <==> ctrl / 1024 % 2 == 1,
        (ctrl >> 11) & 0xF == ctrl / 2048 % 16,
        (ctrl >> 15) & 0x3F == ctrl / 0x8000 % 64,
        ctrl & 0x20_0000 == 0 <==> ctrl / 0x20_0000 % 2 == 0,
        ctrl & 0x00FF_FFFF == ctrl % 0x100_0000,
        ctrl & 0xFFF == ctrl % 0x1000,
        ctrl < 0x100_0000 ==> ctrl | 0x100_0000 == ctrl + 0x100_0000,
        ctrl % 0x100_0000 % 2 == ctrl % 2,
{
}

/// Bytes that one transfer moves: one, two or four, by bits 3:2 of the control
/// word.
pub open spec fn bytes_moved(c: Channel) -> int {
    if c.ctrl as int / 4 % 4 == 0 {
        1
    } else if c.ctrl as int / 4 % 4 == 1 {
        2
    } else {
        4
    }
}

/// Without a ring, an address that increments advances by the bytes that were
/// moved; one that does not stays. The count goes down by one and the channel
/// is busy until it is zero.
#[verifier::rlimit(40)]
pub proof fn law_addresses_advance_by_what_was_moved(c: Channel)
    requires
        c.ctrl as int / 64 % 16 == 0,
    ensures
        ({
            let after = c.stepped();
            &&& after.read_addr == (if c.ctrl as int / 16 % 2 == 1 {
                (c.read_addr + bytes_moved(c)) % 0x1_0000_0000
            } else {
                c.read_addr as int
            })
            &&& after.write_addr == (if c.ctrl as int / 32 % 2 == 1 {
                (c.write_addr + bytes_moved(c)) % 0x1_0000_0000
            } else {
                c.write_addr as int
            })
        }),
        counts_down(c),
{
    reveal(wadd);
    lemma_control_digits(c.ctrl);
}

/// The count after a transfer, and what it means to be busy; nothing but the
/// addresses changes besides.
pub open spec fn counts_down(c: Channel) -> bool {
    let after = c.stepped();
    &&& after.trans_count == (c.trans_count - 1) % 0x1_0000_0000
    &&& after.busy == (after.trans_count != 0)
    &&& after == (Channel {
        read_addr: after.read_addr,
        write_addr: after.write_addr,
        trans_count: after.trans_count,
        busy: after.busy,
        ..c
    })
}

/// A ring of 2^k bytes, on the side that bit 10 of the control word chooses:
/// the low `k` bits of that address advance, the others stay. The other side
/// advances as if there were no ring.
#[verifier::rlimit(40)]
pub proof fn law_ring_wraps_the_chosen_side(c: Channel, i: int)
    requires
        c.ctrl as int / 64 % 16 > 0,
        0 <= i < 32,
    ensures
        ({
            let k = c.ctrl as int / 64 % 16;
            let on_write = c.ctrl as int / 1024 % 2 == 1;
            let after = c.stepped();
            let next_read = ((c.read_addr + bytes_moved(c)) % 0x1_0000_0000) as u32;
            let next_write = ((c.write_addr + bytes_moved(c)) % 0x1_0000_0000) as u32;
            &&& c.ctrl as int / 16 % 2 == 0 ==> after.read_addr == c.read_addr
            &&& c.ctrl as int / 32 % 2 == 0 ==> after.write_addr == c.write_addr
            &&& c.ctrl as int / 16 % 2 == 1 && on_write ==> after.read_addr == next_read
            &&& c.ctrl as int / 32 % 2 == 1 && !on_write ==> after.write_addr == next_write
            &&& c.ctrl as int / 16 % 2 == 1 && !on_write ==> bit(after.read_addr, i) == bit(
                if i < k {
                    next_read
                } else {
                    c.read_addr
                },
                i,
            )
            &&& c.ctrl as int / 32 % 2 == 1 && on_write ==> bit(after.write_addr, i) == bit(
                if i < k {
                    next_write
                } else {
                    c.write_addr
                },
                i,
            )
        }),
        counts_down(c),
{
    reveal(wadd);
    lemma_control_digits(c.ctrl);
    let k = c.ring();
    lemma_ring_bit(c.read_addr, k, c.size(), i);
    lemma_ring_bit(c.write_addr, k, c.size(), i);
}

#[verifier::rlimit(40)]
proof fn lemma_ring_bit(addr: u32, k: u32, size: u32, i: int)
    requires
        0 < k < 16,
        0 <= i < 32,
    ensures
        bit(ring_next(addr, k, size), i) == bit(
            if i < k {
                wadd(addr, size)
            } else {
                addr
            },
            i,
        ),
{
    let mask = ((1u32 << k) - 1) as u32;
    let next = wadd(addr, size);
    lemma_bit_ops(0, 0, i as u32, k);
    lemma_bit_ops(addr, mask, i as u32, 0);
    lemma_bit_ops(next, mask, i as u32, 0);
    lemma_bit_ops(addr & !mask, next & mask, i as u32, 0);
}

/// A transfer moves as many bytes as its control word says.
#[verifier::rlimit(40)]
pub proof fn law_transfer_width(c: Channel)
    ensures
        transfer_width(c).bytes() == bytes_moved(c),
{
    lemma_control_digits(c.ctrl);
}

/// `k` transfers of channel `n` in a row.
pub open spec fn transfers(b: BusState, n: int, k: nat) -> BusState
    decreases k,
{
    if k == 0 {
        b
    } else {
        transfers(b, n, (k - 1) as nat).after_transfer(n)
    }
}

/// The place of element `j` of a run of them.
pub open spec fn element(base: u32, w: Width, j: int) -> u32 {
    (base + w.bytes() * j) as u32
}

/// A channel without a ring that increments both of its addresses.
pub open spec fn copies(c: Channel) -> bool {
    &&& c.ctrl as int / 16 % 2 == 1
    &&& c.ctrl as int / 32 % 2 == 1
    &&& c.ctrl as int / 64 % 16 == 0
}

/// Places for `k` elements of width `w` from `from` and from `to` up lie in
/// SRAM, apart from each other.
pub open spec fn apart_in_sram(b: BusState, from: u32, to: u32, w: Width, k: nat) -> bool {
    &&& from + w.bytes() * k <= 0x3000_0000
    &&& to + w.bytes() * k <= 0x3000_0000
    &&& from + w.bytes() * k <= to || to + w.bytes() * k <= from
    &&& forall|j: int| 0 <= j < k ==> #[trigger] in_sram(b, element(from, w, j), w)
    &&& forall|j: int| 0 <= j < k ==> #[trigger] in_sram(b, element(to, w, j), w)
}

/// Transfers with both increments copy neighbouring elements of SRAM: after
/// `k` of them, each of the first `k` elements at the destination is what the
/// source held, the source is as it was, and both addresses are past the end.
#[verifier::rlimit(40)]
pub proof fn law_transfers_copy_a_run(b: BusState, n: int, k: nat, j: int)
    requires
        0 <= n < 12,
        copies(b.dma.channels[n]),
        apart_in_sram(
            b,
            b.dma.channels[n].read_addr,
            b.dma.channels[n].write_addr,
            transfer_width(b.dma.channels[n]),
            k,
        ),
        0 <= j < k,
    ensures
        ({
            let c = b.dma.channels[n];
            let w = transfer_width(c);
            let after = transfers(b, n, k);
            &&& after.value_at(element(c.write_addr, w, j), w) == b.value_at(element(c.read_addr, w, j), w)
            &&& after.value_at(element(c.read_addr, w, j), w) == b.value_at(element(c.read_addr, w, j), w)
            &&& after.dma.channels[n].read_addr == c.read_addr + bytes_moved(c) * k
            &&& after.dma.channels[n].write_addr == c.write_addr + bytes_moved(c) * k
        }),
{
    lemma_run(b, n, k, k, j);
    law_transfer_width(b.dma.channels[n]);
}

#[verifier::rlimit(40)]
proof fn lemma_run(b: BusState, n: int, k: nat, m: nat, j: int)
    requires
        0 <= n < 12,
        m <= k,
        copies(b.dma.channels[n]),
        apart_in_sram(
            b,
            b.dma.channels[n].read_addr,
            b.dma.channels[n].write_addr,
            transfer_width(b.dma.channels[n]),
            k,
        ),
        0 <= j < k,
    ensures
        ({
            let c = b.dma.channels[n];
            let w = transfer_width(c);
            let after = transfers(b, n, m);
            &&& after.memory.sram.len() == b.memory.sram.len()
            &&& j < m ==> after.value_at(element(c.write_addr, w, j), w) == b.value_at(
                element(c.read_addr, w, j),
                w,
            )
            &&& after.value_at(element(c.read_addr, w, j), w) == b.value_at(element(c.read_addr, w, j), w)
            &&& after.dma.channels[n].ctrl == c.ctrl
            &&& after.dma.channels[n].read_addr == c.read_addr + w.bytes() * m
            &&& after.dma.channels[n].write_addr == c.write_addr + w.bytes() * m
        }),
    decreases m,
{
    if m > 0 {
        let p = (m - 1) as nat;
        let c = b.dma.channels[n];
        let w = transfer_width(c);
        lemma_run(b, n, k, p, j);
        lemma_run(b, n, k, p, p as int);
        let before = transfers(b, n, p);
        let d = before.dma.channels[n];
        assert(transfer_width(d) == w);
        law_transfer_width(d);
        law_transfer_width(c);
        law_addresses_advance_by_what_was_moved(d);
        let from = element(c.read_addr, w, p as int);
        let to = element(c.write_addr, w, p as int);
        let src = element(c.read_addr, w, j);
        let dst = element(c.write_addr, w, j);
        assert(in_sram(b, from, w) && in_sram(b, to, w) && in_sram(b, src, w) && in_sram(b, dst, w));
        lemma_elements(w, p as int, j, k as int);
        lemma_one_transfer(before, n, w);
        let read = before.after_read(from, w);
        lemma_elsewhere(before, n, w, src);
        if j < p {
            lemma_elsewhere(before, n, w, dst);
        }
    }
}

/// Different elements do not overlap, and none leaves the run.
#[verifier::rlimit(40)]
proof fn lemma_elements(w: Width, p: int, j: int, k: int)
    requires
        0 <= p < k,
        0 <= j < k,
    ensures
        0 <= w.bytes() * p,
        w.bytes() * p + w.bytes() <= w.bytes() * k,
        0 <= w.bytes() * j,
        w.bytes() * j + w.bytes() <= w.bytes() * k,
        j < p ==> w.bytes() * j + w.bytes() <= w.bytes() * p,
        w.bytes() * (p + 1) == w.bytes() * p + w.bytes(),
{
}

/// One transfer inside SRAM: the destination holds what was read, and the
/// channel has stepped.
#[verifier::rlimit(40)]
proof fn lemma_one_transfer(b: BusState, n: int, w: Width)
    requires
        0 <= n < 12,
        transfer_width(b.dma.channels[n]) == w,
        in_sram(b, b.dma.channels[n].read_addr, w),
        in_sram(b, b.dma.channels[n].write_addr, w),
    ensures
        ({
            let c = b.dma.channels[n];
            let after = b.after_transfer(n);
            &&& after.value_at(c.write_addr, w) == b.value_at(c.read_addr, w)
            &&& after.dma.channels[n] == c.stepped()
            &&& after.memory.sram.len() == b.memory.sram.len()
        }),
{
    let c = b.dma.channels[n];
    let val = b.value_at(c.read_addr, w);
    crate::bus::service_laws::law_transfer_copies(b, n);
    law_sram_read(b, c.read_addr, w);
    let read = b.after_read(c.read_addr, w);
    law_sram_write(read, c.write_addr, w, val);
    law_load_after_store(b.memory.sram, c.write_addr - 0x2000_0000, w, val);
    lemma_ctrl_fields(c.ctrl);
}

/// A transfer leaves the places alone that it does not write.
#[verifier::rlimit(40)]
proof fn lemma_elsewhere(b: BusState, n: int, w: Width, other: u32)
    requires
        0 <= n < 12,
        transfer_width(b.dma.channels[n]) == w,
        in_sram(b, b.dma.channels[n].read_addr, w),
        in_sram(b, b.dma.channels[n].write_addr, w),
        in_sram(b, other, w),
        other + w.bytes() <= b.dma.channels[n].write_addr || b.dma.channels[n].write_addr + w.bytes() <= other,
    ensures
        b.after_transfer(n).value_at(other, w) == b.value_at(other, w),
{
    let c = b.dma.channels[n];
    let val = b.value_at(c.read_addr, w);
    law_sram_read(b, c.read_addr, w);
    let read = b.after_read(c.read_addr, w);
    law_sram_write_is_local(read, c.write_addr, w, val, other, w);
    law_sram_write(read, c.write_addr, w, val);
    let written = read.after_write(c.write_addr, w, val);
    law_sram_read(b, other, w);
    law_sram_read(read, other, w);
    law_sram_read(written, other, w);
    law_sram_read(b.after_transfer(n), other, w);
}

/// The last transfer of a channel latches its interrupt, unless bit 21 of the
/// control word keeps it quiet, and triggers the channel that bits 14:11 name,
/// with its count refilled where one was set; a channel that names itself, or
/// none of the twelve, chains to nobody. Any other transfer touches nothing
/// but its own channel.
#[verifier::rlimit(40)]
pub proof fn law_last_transfer(d: Dma, n: int, k: int)
    requires
        0 <= n < 12,
        0 <= k < 12,
    ensures
        ({
            let c = d.channels[n];
            let after = d.after_transfer(n);
            let last = c.trans_count == 1;
            let to = c.ctrl as int / 2048 % 16;
            let next = d.channels[k];
            let count = if next.trans_count_reload != 0 {
                next.trans_count_reload
            } else {
                next.trans_count
            };
            &&& bit(after.intr, k) == (bit(d.intr, k) || (last && k == n && c.ctrl as int / 0x20_0000 % 2 == 0))
            &&& k == n ==> after.channels[k] == c.stepped()
            &&& k != n && !(last && k == to) ==> after.channels[k] == next
            &&& k != n && last && k == to ==> after.channels[k] == (Channel {
                trans_count: count,
                busy: next.busy || (next.ctrl % 2 == 1 && count != 0),
                trig_chain: ((next.trig_chain + 1) % 0x1_0000_0000) as u32,
                ..next
            })
            &&& after == (Dma { channels: after.channels, intr: after.intr, ..d })
        }),
{
    reveal(wadd);
    let c = d.channels[n];
    lemma_control_digits(c.ctrl);
    lemma_control_digits(d.channels[k].ctrl);
    lemma_bit_ops(d.intr, 0, k as u32, n as u32);
}

/// What a channel's sixteen registers hold, by the offset within the channel:
/// the read address, the write address, the count, and the control word with
/// its busy bit.
pub open spec fn register_of(inner: int) -> int {
    if inner == 0x00 || inner == 0x14 || inner == 0x28 || inner == 0x3C {
        0
    } else if inner == 0x04 || inner == 0x18 || inner == 0x2C || inner == 0x34 {
        1
    } else if inner == 0x08 || inner == 0x1C || inner == 0x24 || inner == 0x38 {
        2
    } else {
        3
    }
}

/// Writing one of them replaces it, and through five of the sixteen also
/// triggers the channel: it becomes busy if it is enabled and has something to
/// move. A written count is also what a chain refills with.
#[verifier::rlimit(40)]
pub proof fn law_channel_registers(c: Channel, inner: int, val: u32)
    requires
        0 <= inner < 0x40,
        inner % 4 == 0,
        c.ctrl < 0x100_0000,
    ensures
        ({
            let after = c.after_write(inner as u32, val, 0);
            let what = register_of(inner);
            let triggers = inner == 0x0C || inner == 0x18 || inner == 0x1C || inner == 0x24 || inner == 0x3C;
            &&& after.read_addr == (if what == 0 {
                val
            } else {
                c.read_addr
            })
            &&& after.write_addr == (if what == 1 {
                val
            } else {
                c.write_addr
            })
            &&& after.trans_count == (if what == 2 {
                val
            } else {
                c.trans_count
            })
            &&& after.trans_count_reload == (if what == 2 {
                val
            } else {
                c.trans_count_reload
            })
            &&& after.ctrl == (if what == 3 {
                val % 0x100_0000
            } else {
                c.ctrl
            })
            &&& after.busy == (c.busy || (triggers && after.ctrl % 2 == 1 && after.trans_count != 0))
            &&& c.word_at(inner as u32) == (if what == 0 {
                c.read_addr as int
            } else if what == 1 {
                c.write_addr as int
            } else if what == 2 {
                c.trans_count as int
            } else if c.busy {
                c.ctrl + 0x100_0000
            } else {
                c.ctrl as int
            })
        }),
{
    lemma_control_digits(val);
    lemma_control_digits(c.ctrl);
    lemma_control_digits(c.after_write(inner as u32, val, 0).ctrl);
}

/// The registers of channel `n` are at 64 `n`, and a write there leaves every
/// other channel alone.
#[verifier::rlimit(40)]
pub proof fn law_channels_have_their_own_registers(d: Dma, n: int, inner: int, val: u32, alias: u32)
    requires
        0 <= n < 12,
        0 <= inner < 0x40,
    ensures
        ({
            let offset = (0x40 * n + inner) as u32;
            let after = d.after_write(offset, val, alias);
            &&& after.channels[n] == d.channels[n].after_write(inner as u32, val, alias)
            &&& after == (Dma { channels: after.channels, ..d })
            &&& forall|k: int| 0 <= k < 12 && k != n ==> #[trigger] after.channels[k] == d.channels[k]
            &&& d.word_at(offset) == d.channels[n].word_at(inner as u32)
        }),
{
}

/// MULTI_CHAN_TRIGGER triggers the channels it names, and CHAN_ABORT stops
/// them.
#[verifier::rlimit(40)]
pub proof fn law_many_at_once(d: Dma, mask: u32, k: int)
    requires
        0 <= k < 12,
    ensures
        ({
            let started = d.after_write(0x430, mask, 0);
            let stopped = d.after_write(0x444, mask, 0);
            let c = d.channels[k];
            &&& started.channels[k].busy == (c.busy || (bit(mask, k) && c.ctrl % 2 == 1 && c.trans_count != 0))
            &&& started.channels[k] == (Channel {
                busy: started.channels[k].busy,
                trig_multi: started.channels[k].trig_multi,
                ..c
            })
            &&& stopped.channels[k] == (Channel { busy: c.busy && !bit(mask, k), ..c })
        }),
{
    lemma_triggered(d, 12, mask, k);
    crate::dma::law_abort_stops_the_named(d, 12, mask, k);
    lemma_control_digits(d.channels[k].ctrl);
}

#[verifier::rlimit(40)]
pub proof fn lemma_triggered(d: Dma, n: nat, mask: u32, k: int)
    requires
        n <= 12,
        0 <= k < 12,
    ensures
        d.triggered_upto(n, mask).channels[k] == (if k < n && bit(mask, k) {
            d.channels[k].multi_triggered()
        } else {
            d.channels[k]
        }),
    decreases n,
{
    if n > 0 {
        lemma_triggered(d, (n - 1) as nat, mask, k);
        lemma_triggered(d, (n - 1) as nat, mask, n - 1);
    }
}

/// A latched or forced interrupt that is enabled is asserted; writing ones
/// takes latched ones down; an assertion on either side raises line 11 or 12
/// and no other.
#[verifier::rlimit(40)]
pub proof fn law_controller_interrupts(d: Dma, val: u32, irqs: u32, i: int)
    requires
        0 <= i < 32,
    ensures
        bit(d.word_at(0x40C), i) == ((bit(d.intr, i) || bit(d.intf0, i)) && bit(d.inte0, i)),
        bit(d.word_at(0x41C), i) == ((bit(d.intr, i) || bit(d.intf1, i)) && bit(d.inte1, i)),
        d.word_at(0x400) == d.intr,
        bit(d.after_write(0x400, val, 0).intr, i) == (bit(d.intr, i) && !bit(val, i)),
        bit(d.after_write(0x40C, val, 0).intr, i) == (bit(d.intr, i) && !bit(val, i)),
        bit(d.after_write(0x41C, val, 0).intr, i) == (bit(d.intr, i) && !bit(val, i)),
        d.after_write(0x404, val, 0) == (Dma { inte0: val % 0x1000, ..d }),
        d.after_write(0x408, val, 0) == (Dma { intf0: val % 0x1000, ..d }),
        d.after_write(0x414, val, 0) == (Dma { inte1: val % 0x1000, ..d }),
        d.after_write(0x418, val, 0) == (Dma { intf1: val % 0x1000, ..d }),
        bit(d.routed(irqs), i) == (bit(irqs, i) || (i == 11 && d.word_at(0x40C) != 0) || (i == 12 && d.word_at(0x41C)
            != 0)),
{
    let k = i as u32;
    lemma_bit_ops(d.intr, d.intf0, k, 0);
    lemma_bit_ops(d.intr, d.intf1, k, 0);
    lemma_bit_ops(d.intr | d.intf0, d.inte0, k, 0);
    lemma_bit_ops(d.intr | d.intf1, d.inte1, k, 0);
    lemma_bit_ops(d.intr, val, k, 0);
    lemma_control_digits(val);
    lemma_bit_ops(irqs, 0, k, 11);
    lemma_bit_ops(irqs, 0, k, 12);
    lemma_bit_ops(irqs | (1u32 << 11u32), 0, k, 12);
}

} // verus!
