//! What a PIO block does around its machines: clocks, program counters,
//! queues, flags and registers.
use vstd::prelude::*;

use crate::bits::{bit, lemma_bit_ops};
use crate::fifo::{law_fifo_drop_front, law_fifo_push_appends};
use crate::pio::laws::{lemma_digits, lemma_low_mask};
use crate::pio::sm::{field, low_mask, Shared, Sm};
use crate::pio::Pio;

verus! {

/// A power of two up to 32.
pub open spec fn two_to(n: int) -> int {
    if n <= 0 {
        1
    } else if n == 1 {
        2
    } else if n == 2 {
        4
    } else if n == 3 {
        8
    } else if n == 4 {
        16
    } else {
        32
    }
}

/// The bits of the shared field that the side-set does not take.
pub open spec fn delay_bits(sm: Sm) -> int {
    let k = sm.pinctrl as int / 0x2000_0000;
    if k > 5 {
        0
    } else {
        5 - k
    }
}

#[verifier::rlimit(40)]
proof fn lemma_delay(sm: Sm, op: u32)
    ensures
        sm.delay_of(op) == (op as int / 256 % 32) % two_to(delay_bits(sm)),
{
    lemma_digits(op);
    lemma_digits(sm.pinctrl);
    lemma_low_digits(field(op, 8, 5));
}

#[verifier::rlimit(40)]
proof fn lemma_low_digits(x: u32)
    ensures
        x & (((1u32 << 0u32) - 1) as u32) == x % 1,
        x & (((1u32 << 1u32) - 1) as u32) == x % 2,
        x & (((1u32 << 2u32) - 1) as u32) == x % 4,
        x & (((1u32 << 3u32) - 1) as u32) == x % 8,
        x & (((1u32 << 4u32) - 1) as u32) == x % 16,
        x & (((1u32 << 5u32) - 1) as u32) == x % 32,
        x & 0xFFFF_0000 == x / 0x1_0000 * 0x1_0000,
        x & 0xFFFF_FF00 == x / 256 * 256,
        x & 0xFFF == x % 0x1000,
        x & 0xFF == x % 256,
{
    lemma_word_digits(x, 0);
}

proof fn lemma_word_digits(x: u32, b: u32)
    by (bit_vector)
    ensures
        ((x & 0xFFFF_0000) ^ b) & 0xC000_0000 == 0 <==> x / 0x4000_0000 == b / 0x4000_0000,
        x & (((1u32 << 0u32) - 1) as u32) == x % 1,
        x & (((1u32 << 1u32) - 1) as u32) == x % 2,
        x & (((1u32 << 2u32) - 1) as u32) == x % 4,
        x & (((1u32 << 3u32) - 1) as u32) == x % 8,
        x & (((1u32 << 4u32) - 1) as u32) == x % 16,
        x & (((1u32 << 5u32) - 1) as u32) == x % 32,
        x & 0xFFFF_0000 == x / 0x1_0000 * 0x1_0000,
        x & 0xFFFF_FF00 == x / 256 * 256,
        x & 0xFFF == x % 0x1000,
        x & 0xFF == x % 256,
{
}

/// A machine clock runs one instruction. One that waits leaves the program
/// counter; one that jumped has set it; after any other it moves to the next
/// word, or from the wrap top (EXECCTRL 16:12) to the wrap bottom (11:7). Then
/// the instruction's delay begins.
#[verifier::rlimit(40)]
pub proof fn law_machine_clock(sm: Sm, shared: Shared, op: u32, input: u32, n: u32)
    requires
        sm.delay == 0,
        sm.forced is None,
    ensures
        ({
            let e = sm.executed(shared, op, input, n);
            let (after, pads) = sm.clocked(shared, op, input, n);
            &&& pads == e.shared
            &&& e.stalled ==> after == e.sm
            &&& !e.stalled ==> after == (Sm { pc: after.pc, delay: after.delay, ..e.sm })
            &&& !e.stalled ==> after.delay == (op as int / 256 % 32) % two_to(delay_bits(sm))
            &&& !e.stalled && e.jumped ==> after.pc == e.sm.pc
            &&& !e.stalled && !e.jumped ==> after.pc == (if e.sm.pc == e.sm.execctrl as int / 4096 % 32 {
                e.sm.execctrl as int / 128 % 32
            } else {
                (e.sm.pc + 1) % 32
            })
        }),
{
    reveal(Sm::clocked);
    lemma_delay(sm, op);
    lemma_digits(sm.executed(shared, op, input, n).sm.execctrl);
}

/// A delay passes one clock at a time and holds everything else still.
#[verifier::rlimit(40)]
pub proof fn law_delay_passes(sm: Sm, shared: Shared, op: u32, input: u32, n: u32)
    requires
        sm.delay > 0,
    ensures
        sm.clocked(shared, op, input, n) == (Sm { delay: (sm.delay - 1) as u32, ..sm }, shared),
{
    reveal(Sm::clocked);
}

/// An instruction handed over runs in place of the next one, once, and is kept
/// while it has to wait. The program counter moves only where it jumps.
#[verifier::rlimit(40)]
pub proof fn law_forced_instruction(sm: Sm, shared: Shared, op: u32, input: u32, n: u32, first: u32)
    requires
        sm.delay == 0,
        sm.forced == Some(first),
    ensures
        ({
            let e = (Sm { forced: None, ..sm }).executed(shared, first, input, n);
            let (after, pads) = sm.clocked(shared, op, input, n);
            &&& pads == e.shared
            &&& e.stalled ==> after == (Sm { forced: Some(first), ..e.sm })
            &&& !e.stalled ==> after == e.sm
        }),
{
    reveal(Sm::clocked);
}

/// The clock divider: each system clock counts 256 towards CLKDIV's whole and
/// fractional part, a whole part of zero standing for 65536; on a full count
/// the machine runs and what is over stays. A machine that is off stands
/// still, and no other machine is touched.
#[verifier::rlimit(40)]
pub proof fn law_clock_divider(p: Pio, n: int, input: u32)
    requires
        0 <= n < 4,
        p.sms[n].clock < 0x0100_0000,
    ensures
        ({
            let sm = p.sms[n];
            let whole = sm.clkdiv as int / 0x1_0000;
            let div = if whole == 0 {
                0x100_0000int
            } else {
                sm.clkdiv as int / 256
            };
            let after = p.sm_ticked(n, input);
            let count = sm.clock + 256;
            &&& !sm.enabled ==> after == p
            &&& sm.enabled && count < div ==> after == (Pio { sms: after.sms, ..p }) && after.sms[n] == (Sm {
                clock: count as u32,
                ..sm
            })
            &&& sm.enabled && count >= div ==> {
                let (ran, pads) = (Sm { clock: (count - div) as u32, ..sm }).clocked(
                    Shared { irq: p.irq, out: p.pad_out, oe: p.pad_oe },
                    p.instr_mem[sm.pc as int % 32],
                    input,
                    n as u32,
                );
                &&& after.sms[n] == ran
                &&& after == (Pio { sms: after.sms, irq: pads.irq, pad_out: pads.out, pad_oe: pads.oe, ..p })
            }
            &&& forall|k: int| 0 <= k < 4 && k != n ==> #[trigger] after.sms[k] == p.sms[k]
        }),
{
    lemma_digits(p.sms[n].clkdiv);
}

/// One system clock gives each machine its turn, in order.
#[verifier::rlimit(40)]
pub proof fn law_machines_take_turns(p: Pio, input: u32)
    ensures
        p.ran(1, input) == p.sm_ticked(0, input).sm_ticked(1, input).sm_ticked(2, input).sm_ticked(3, input),
        p.ran(0, input) == p,
        p.after_tick(0, input) == (Pio { input, ..p }),
{
    assert(p.ran(0, input) == p);
}

/// Where the registers of machine `n` are.
pub open spec fn sm_register(n: int, inner: int) -> u32 {
    (0xC8 + 0x18 * n + inner) as u32
}

#[verifier::rlimit(40)]
pub proof fn lemma_sm_register(n: int, inner: int)
    requires
        0 <= n < 4,
        0 <= inner < 0x18,
    ensures
        (sm_register(n, inner) - 0xC8) / 0x18 == n,
        (sm_register(n, inner) - 0xC8) % 0x18 == inner,
        0xC8 <= sm_register(n, inner) < 0x128,
{
}

/// The four configuration words of a machine keep what is written to them, as
/// far as they have bits for it, and give it back; nothing else changes, but
/// that joining or splitting the queues empties them.
#[verifier::rlimit(40)]
pub proof fn law_configuration_registers(p: Pio, n: int, val: u32)
    requires
        0 <= n < 4,
    ensures
        ({
            let clkdiv = p.after_write(sm_register(n, 0x00), val, 0);
            let execctrl = p.after_write(sm_register(n, 0x04), val, 0);
            let shiftctrl = p.after_write(sm_register(n, 0x08), val, 0);
            let pinctrl = p.after_write(sm_register(n, 0x14), val, 0);
            let sm = p.sms[n];
            let others = |q: Pio| forall|k: int| 0 <= k < 4 && k != n ==> #[trigger] q.sms[k] == p.sms[k];
            &&& clkdiv.sms[n] == (Sm { clkdiv: (val / 256 * 256) as u32, ..sm }) && others(clkdiv)
            &&& execctrl.sms[n] == (Sm { execctrl: val & 0x7FFF_FF9F, ..sm }) && others(execctrl)
            &&& pinctrl.sms[n] == (Sm { pinctrl: val, ..sm }) && others(pinctrl)
            &&& shiftctrl.sms[n] == (Sm {
                shiftctrl: (val / 0x1_0000 * 0x1_0000) as u32,
                tx: shiftctrl.sms[n].tx,
                rx: shiftctrl.sms[n].rx,
                ..sm
            }) && others(shiftctrl)
            &&& clkdiv == (Pio { sms: clkdiv.sms, ..p })
            &&& execctrl == (Pio { sms: execctrl.sms, ..p })
            &&& shiftctrl == (Pio { sms: shiftctrl.sms, ..p })
            &&& pinctrl == (Pio { sms: pinctrl.sms, ..p })
            &&& clkdiv.word_at(sm_register(n, 0x00)) == val / 256 * 256
            &&& sm.forced is None ==> execctrl.word_at(sm_register(n, 0x04)) == val & 0x7FFF_FF9F
            &&& shiftctrl.word_at(sm_register(n, 0x08)) == val / 0x1_0000 * 0x1_0000
            &&& pinctrl.word_at(sm_register(n, 0x14)) == val
            &&& p.word_at(sm_register(n, 0x0C)) == sm.pc
            &&& p.word_at(sm_register(n, 0x10)) == p.instr_mem[sm.pc as int % 32]
        }),
{
    lemma_sm_register(n, 0x00);
    lemma_sm_register(n, 0x04);
    lemma_sm_register(n, 0x08);
    lemma_sm_register(n, 0x0C);
    lemma_sm_register(n, 0x10);
    lemma_sm_register(n, 0x14);
    lemma_low_digits(val);
}

/// Changing the join bits (SHIFTCTRL 31:30) empties both queues; other changes
/// keep them.
#[verifier::rlimit(40)]
pub proof fn law_joining_empties_the_queues(p: Pio, n: int, val: u32)
    requires
        0 <= n < 4,
    ensures
        ({
            let sm = p.sms[n];
            let after = p.after_write(sm_register(n, 0x08), val, 0).sms[n];
            if val / 0x4000_0000 == sm.shiftctrl / 0x4000_0000 {
                after.tx == sm.tx && after.rx == sm.rx
            } else {
                after.tx.items().len() == 0 && after.rx.items().len() == 0
            }
        }),
{
    lemma_sm_register(n, 0x08);
    lemma_join_bits(val, p.sms[n].shiftctrl);
}

#[verifier::rlimit(40)]
proof fn lemma_join_bits(a: u32, b: u32)
    ensures
        ((a & 0xFFFF_0000) ^ b) & 0xC000_0000 == 0 <==> a / 0x4000_0000 == b / 0x4000_0000,
{
    lemma_word_digits(a, b);
}

/// The room in the queues: four words each, or with a join bit all eight on
/// one side and none on the other.
#[verifier::rlimit(40)]
pub proof fn law_queue_depths(sm: Sm)
    ensures
        sm.shiftctrl < 0x4000_0000 ==> sm.tx_depth() == 4 && sm.rx_depth() == 4,
        0x4000_0000 <= sm.shiftctrl < 0x8000_0000 ==> sm.tx_depth() == 8 && sm.rx_depth() == 0,
        0x8000_0000 <= sm.shiftctrl ==> sm.tx_depth() == 0 && sm.rx_depth() == 8,
{
    lemma_digits(sm.shiftctrl);
}

/// An instruction written to a machine's INSTR register runs at once, whether
/// or not the machine is on, and is kept where it has to wait.
#[verifier::rlimit(40)]
pub proof fn law_written_instruction_runs(p: Pio, n: int, op: u32)
    requires
        0 <= n < 4,
        op < 0x1_0000,
    ensures
        ({
            let e = p.sms[n].executed(
                Shared { irq: p.irq, out: p.pad_out, oe: p.pad_oe },
                op,
                p.input,
                n as u32,
            );
            let after = p.after_write(sm_register(n, 0x10), op, 0);
            &&& after == (Pio {
                sms: after.sms,
                irq: e.shared.irq,
                pad_out: e.shared.out,
                pad_oe: e.shared.oe,
                ..p
            })
            &&& !e.stalled ==> after.sms[n] == e.sm
            &&& e.stalled ==> after.sms[n] == (Sm { forced: Some(op), ..e.sm })
            &&& forall|k: int| 0 <= k < 4 && k != n ==> #[trigger] after.sms[k] == p.sms[k]
        }),
{
    lemma_sm_register(n, 0x10);
    lemma_digits(op);
}

/// Program memory takes the low halfword of what is written, and a machine
/// fetches it when its program counter is there.
#[verifier::rlimit(40)]
pub proof fn law_program_memory(p: Pio, i: int, val: u32, n: int, k: int)
    requires
        0 <= i < 32,
        0 <= n < 4,
        0 <= k < 32,
        p.sms[n].pc == k,
    ensures
        ({
            let after = p.after_write((0x48 + 4 * i) as u32, val, 0);
            &&& after.fetch(n) == (if k == i {
                val % 0x1_0000
            } else {
                p.instr_mem[k]
            })
            &&& after == (Pio { instr_mem: after.instr_mem, ..p })
        }),
{
    lemma_digits(val);
}

/// A word written to a transmit register joins the end of its queue while
/// there is room, and a read of a receive register takes the oldest word of
/// its queue.
#[verifier::rlimit(40)]
pub proof fn law_queue_registers(p: Pio, n: int, val: u32)
    requires
        0 <= n < 4,
        p.sms[n].tx.count <= 16,
        p.sms[n].rx.count <= 16,
    ensures
        ({
            let sm = p.sms[n];
            let written = p.after_write((0x10 + 4 * n) as u32, val, 0);
            let read = p.after_read((0x20 + 4 * n) as u32);
            &&& sm.tx.count < sm.tx_depth() ==> written.sms[n].tx.items() == sm.tx.items().push(val)
            &&& sm.tx.count >= sm.tx_depth() ==> written.sms[n].tx.items() == sm.tx.items()
            &&& written.sms[n] == (Sm { tx: written.sms[n].tx, ..sm })
            &&& written == (Pio { sms: written.sms, ..p })
            &&& sm.rx.count > 0 ==> p.word_at((0x20 + 4 * n) as u32) == sm.rx.items()[0]
            &&& sm.rx.count > 0 ==> read.sms[n].rx.items() == sm.rx.items().skip(1)
            &&& sm.rx.count == 0 ==> p.word_at((0x20 + 4 * n) as u32) == 0 && read.sms[n].rx.items() == sm.rx.items()
            &&& read.sms[n] == (Sm { rx: read.sms[n].rx, ..sm })
            &&& read == (Pio { sms: read.sms, ..p })
            &&& forall|k: int| 0 <= k < 4 && k != n ==> #[trigger] written.sms[k] == p.sms[k]
            &&& forall|k: int| 0 <= k < 4 && k != n ==> #[trigger] read.sms[k] == p.sms[k]
        }),
{
    let sm = p.sms[n];
    law_fifo_push_appends(sm.tx, val, sm.tx_depth());
    if sm.rx.count > 0 {
        law_fifo_drop_front(sm.rx, 1);
    } else {
        assert(sm.rx.dropped(1).items() =~= sm.rx.items());
    }
}

/// A write to CTRL: bit `n` switches machine `n` on or off, bit `4 + n`
/// restarts it and bit `8 + n` restarts its clock divider. A restart empties
/// the shift registers and forgets what the machine waited for.
#[verifier::rlimit(40)]
pub proof fn law_control_register(p: Pio, n: int, val: u32)
    requires
        0 <= n < 4,
    ensures
        ({
            let sm = p.sms[n];
            let after = p.after_write(0, val, 0);
            let restart = bit(val, 4 + n);
            &&& after == (Pio { sms: after.sms, ..p })
            &&& after.sms[n].enabled == bit(val, n)
            &&& after.sms[n].clock == (if bit(val, 8 + n) {
                0
            } else {
                sm.clock
            })
            &&& !restart ==> after.sms[n] == (Sm {
                enabled: after.sms[n].enabled,
                clock: after.sms[n].clock,
                ..sm
            })
            &&& restart ==> after.sms[n] == (Sm {
                enabled: after.sms[n].enabled,
                clock: after.sms[n].clock,
                isr: 0,
                isr_count: 0,
                osr_count: 32,
                delay: 0,
                forced: None,
                irq_waiting: false,
                ..sm
            })
        }),
{
    lemma_controlled(p, 4, val, val, n);
}

#[verifier::rlimit(40)]
pub proof fn lemma_controlled(p: Pio, m: nat, enables: u32, val: u32, n: int)
    requires
        m <= 4,
        0 <= n < 4,
    ensures
        ({
            let after = p.controlled_upto(m, enables, val);
            &&& after == (Pio { sms: after.sms, ..p })
            &&& after.sms[n] == (if n < m {
                p.sms[n].controlled(bit(enables, n), bit(val, 4 + n), bit(val, 8 + n))
            } else {
                p.sms[n]
            })
        }),
    decreases m,
{
    if m > 0 {
        lemma_controlled(p, (m - 1) as nat, enables, val, n);
        lemma_controlled(p, (m - 1) as nat, enables, val, m - 1);
    }
}

/// The bits that report on each machine, from bit `at` up.
proof fn lemma_per_sm(a: bool, b: bool, c: bool, d: bool, at: u32, i: u32)
    by (bit_vector)
    requires
        at <= 24,
        i < 32,
    ensures
        (((if a { 1u32 << at } else { 0u32 }) | (if b { 2u32 << at } else { 0u32 }) | (if c { 4u32 << at } else { 0u32 }) | (if d { 8u32 << at } else { 0u32 })) >> i) & 1 == 1 <==> ((i == at && a) || (i == at + 1 && b) || (i == at + 2 && c) || (i == at + 3 && d)),
        (0xFu32 >> i) & 1 == 1 <==> i < 4,
{
}

/// FSTAT reports, for each machine, a receive queue that is full (bit `n`) or
/// empty (`8 + n`) and a transmit queue that is full (`16 + n`) or empty
/// (`24 + n`).
#[verifier::rlimit(40)]
pub proof fn law_queue_status(p: Pio, n: int)
    requires
        0 <= n < 4,
    ensures
        ({
            let sm = p.sms[n];
            let w = p.word_at(4);
            &&& bit(w, n) == (sm.rx.count >= sm.rx_depth())
            &&& bit(w, 8 + n) == (sm.rx.count == 0)
            &&& bit(w, 16 + n) == (sm.tx.count >= sm.tx_depth())
            &&& bit(w, 24 + n) == (sm.tx.count == 0)
        }),
{
    lemma_status_bit(p, n as u32);
    lemma_status_bit(p, (8 + n) as u32);
    lemma_status_bit(p, (16 + n) as u32);
    lemma_status_bit(p, (24 + n) as u32);
}

/// One of four, by its number.
pub open spec fn one_of(a: bool, b: bool, c: bool, d: bool, i: int) -> bool {
    (i == 0 && a) || (i == 1 && b) || (i == 2 && c) || (i == 3 && d)
}

#[verifier::rlimit(40)]
pub proof fn lemma_one_of(a: bool, b: bool, c: bool, d: bool, at: u32, i: u32)
    requires
        at <= 24,
        i < 32,
    ensures
        bit(Pio::per_sm(a, b, c, d, at), i as int) == one_of(a, b, c, d, i - at),
{
    reveal(Pio::per_sm);
    lemma_per_sm(a, b, c, d, at, i);
}

#[verifier::rlimit(40)]
proof fn lemma_four_words(a: u32, b: u32, c: u32, d: u32, i: u32)
    requires
        i < 32,
    ensures
        bit(a | b | c | d, i as int) == (bit(a, i as int) || bit(b, i as int) || bit(c, i as int) || bit(d, i as int)),
{
    lemma_bit_ops(a, b, i, 0);
    lemma_bit_ops(a | b, c, i, 0);
    lemma_bit_ops(a | b | c, d, i, 0);
}

#[verifier::rlimit(40)]
proof fn lemma_status_bit(p: Pio, i: u32)
    requires
        i < 32,
    ensures
        bit(p.fstat(), i as int) == (one_of(
            p.sms[0].tx.count == 0,
            p.sms[1].tx.count == 0,
            p.sms[2].tx.count == 0,
            p.sms[3].tx.count == 0,
            i - 24,
        ) || one_of(p.tx_full(0), p.tx_full(1), p.tx_full(2), p.tx_full(3), i - 16) || one_of(
            p.sms[0].rx.count == 0,
            p.sms[1].rx.count == 0,
            p.sms[2].rx.count == 0,
            p.sms[3].rx.count == 0,
            i - 8,
        ) || one_of(p.rx_full(0), p.rx_full(1), p.rx_full(2), p.rx_full(3), i as int)),
{
    lemma_status_words(
        (p.sms[0].tx.count == 0, p.sms[1].tx.count == 0, p.sms[2].tx.count == 0, p.sms[3].tx.count == 0),
        (p.tx_full(0), p.tx_full(1), p.tx_full(2), p.tx_full(3)),
        (p.sms[0].rx.count == 0, p.sms[1].rx.count == 0, p.sms[2].rx.count == 0, p.sms[3].rx.count == 0),
        (p.rx_full(0), p.rx_full(1), p.rx_full(2), p.rx_full(3)),
        i,
    );
}

#[verifier::rlimit(40)]
proof fn lemma_status_words(
    te: (bool, bool, bool, bool),
    tf: (bool, bool, bool, bool),
    re: (bool, bool, bool, bool),
    rf: (bool, bool, bool, bool),
    i: u32,
)
    requires
        i < 32,
    ensures
        bit(
            Pio::per_sm(te.0, te.1, te.2, te.3, 24) | Pio::per_sm(tf.0, tf.1, tf.2, tf.3, 16) | Pio::per_sm(
                re.0,
                re.1,
                re.2,
                re.3,
                8,
            ) | Pio::per_sm(rf.0, rf.1, rf.2, rf.3, 0),
            i as int,
        ) == (one_of(te.0, te.1, te.2, te.3, i - 24) || one_of(tf.0, tf.1, tf.2, tf.3, i - 16) || one_of(
            re.0,
            re.1,
            re.2,
            re.3,
            i - 8,
        ) || one_of(rf.0, rf.1, rf.2, rf.3, i as int)),
{
    lemma_one_of(te.0, te.1, te.2, te.3, 24, i);
    lemma_one_of(tf.0, tf.1, tf.2, tf.3, 16, i);
    lemma_one_of(re.0, re.1, re.2, re.3, 8, i);
    lemma_one_of(rf.0, rf.1, rf.2, rf.3, 0, i);
    lemma_four_words(
        Pio::per_sm(te.0, te.1, te.2, te.3, 24),
        Pio::per_sm(tf.0, tf.1, tf.2, tf.3, 16),
        Pio::per_sm(re.0, re.1, re.2, re.3, 8),
        Pio::per_sm(rf.0, rf.1, rf.2, rf.3, 0),
        i,
    );
}

/// The raw interrupts: the low four flags, transmit queues with room from bit
/// 4 up, receive queues with data from bit 8 up. A line asserts the enabled
/// ones and the forced ones.
#[verifier::rlimit(40)]
pub proof fn law_block_interrupts(p: Pio, i: int)
    requires
        0 <= i < 12,
    ensures
        ({
            let raw = if i < 4 {
                bit(p.irq, i)
            } else if i < 8 {
                p.sms[i - 4].tx.count < p.sms[i - 4].tx_depth()
            } else {
                p.sms[i - 8].rx.count > 0
            };
            &&& bit(p.word_at(0x16C), i) == raw
            &&& bit(p.word_at(0x178), i) == ((raw && bit(p.inte0, i)) || bit(p.intf0, i))
            &&& bit(p.word_at(0x184), i) == ((raw && bit(p.inte1, i)) || bit(p.intf1, i))
            &&& p.ints0() == p.word_at(0x178)
            &&& p.ints1() == p.word_at(0x184)
        }),
{
    let k = i as u32;
    let tx = Pio::per_sm(!p.tx_full(0), !p.tx_full(1), !p.tx_full(2), !p.tx_full(3), 4);
    let rx = Pio::per_sm(p.sms[0].rx.count > 0, p.sms[1].rx.count > 0, p.sms[2].rx.count > 0, p.sms[3].rx.count > 0, 8);
    lemma_per_sm(false, false, false, false, 0, k);
    lemma_one_of(!p.tx_full(0), !p.tx_full(1), !p.tx_full(2), !p.tx_full(3), 4, k);
    lemma_one_of(p.sms[0].rx.count > 0, p.sms[1].rx.count > 0, p.sms[2].rx.count > 0, p.sms[3].rx.count > 0, 8, k);
    lemma_bit_ops(p.irq, 0xF, k, 0);
    lemma_bit_ops(p.irq & 0xF, tx, k, 0);
    lemma_bit_ops((p.irq & 0xF) | tx, rx, k, 0);
    lemma_bit_ops(p.intr(), p.inte0, k, 0);
    lemma_bit_ops(p.intr() & p.inte0, p.intf0, k, 0);
    lemma_bit_ops(p.intr(), p.inte1, k, 0);
    lemma_bit_ops(p.intr() & p.inte1, p.intf1, k, 0);
}

/// Writing ones to IRQ takes those flags down, and to IRQ_FORCE raises the
/// low eight of them; the interrupt enables and forces keep twelve bits.
#[verifier::rlimit(40)]
pub proof fn law_flag_registers(p: Pio, val: u32, i: int)
    requires
        0 <= i < 32,
    ensures
        bit(p.after_write(0x30, val, 0).irq, i) == (bit(p.irq, i) && !bit(val, i)),
        bit(p.after_write(0x34, val, 0).irq, i) == (bit(p.irq, i) || (i < 8 && bit(val, i))),
        p.word_at(0x30) == p.irq,
        p.word_at(0x3C) == p.pad_out,
        p.word_at(0x40) == p.pad_oe,
        p.after_write(0x170, val, 0) == (Pio { inte0: val % 0x1000, ..p }),
        p.after_write(0x174, val, 0) == (Pio { intf0: val % 0x1000, ..p }),
        p.after_write(0x17C, val, 0) == (Pio { inte1: val % 0x1000, ..p }),
        p.after_write(0x180, val, 0) == (Pio { intf1: val % 0x1000, ..p }),
{
    let k = i as u32;
    lemma_bit_ops(p.irq, val, k, 0);
    lemma_bit_ops(p.irq, val & 0xFF, k, 0);
    lemma_bit_ops(val, 0xFF, k, 0);
    lemma_low_digits(val);
    lemma_low_digits(0xFF);
    lemma_low_mask(8, i);
    lemma_eight();
}

#[verifier::rlimit(40)]
proof fn lemma_eight()
    ensures
        low_mask(8) == 0xFF,
{
    lemma_digits(0);
}

} // verus!
