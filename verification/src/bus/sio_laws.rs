//! What the registers of the single-cycle I/O block do, pin by pin, lock by
//! lock and number by number.
use vstd::prelude::*;

use crate::bits::{asr, bit, lemma_bit_ops, signed, wadd};
use crate::bus::sio::{abs, field_mask, law_signed_division, law_unsigned_division, Interp, Sio};
use crate::fifo::{law_fifo_drop_front, law_fifo_push_appends};

verus! {

/// The four ways to write an output register: plainly, setting, clearing and
/// inverting the pins that the value names.
pub open spec fn written_pin(way: int, before: bool, named: bool) -> bool {
    if way == 0 {
        named
    } else if way == 1 {
        before || named
    } else if way == 2 {
        before && !named
    } else {
        before != named
    }
}

/// GPIO_OUT and GPIO_OE, each with its set, clear and invert registers, change
/// exactly the pins below 30 that the written value names, and read back.
#[verifier::rlimit(40)]
pub proof fn law_pin_registers(s: Sio, way: int, val: u32, core: usize, i: int)
    requires
        0 <= way < 4,
        0 <= i < 32,
    ensures
        ({
            let out = s.after_write((0x10 + 4 * way) as u32, val, core);
            let oe = s.after_write((0x20 + 4 * way) as u32, val, core);
            &&& out == (Sio { gpio_out: out.gpio_out, ..s })
            &&& bit(out.gpio_out, i) == (i < 30 && written_pin(way, bit(s.gpio_out, i), bit(val, i)))
            &&& oe == (Sio { gpio_oe: oe.gpio_oe, ..s })
            &&& bit(oe.gpio_oe, i) == (i < 30 && written_pin(way, bit(s.gpio_oe, i), bit(val, i)))
            &&& s.word_at(0x10, core) == s.gpio_out
            &&& s.word_at(0x20, core) == s.gpio_oe
        }),
{
    let k = i as u32;
    lemma_written(s.gpio_out, val, k);
    lemma_written(s.gpio_oe, val, k);
}

#[verifier::rlimit(40)]
proof fn lemma_written(x: u32, val: u32, k: u32)
    requires
        k < 32,
    ensures
        bit(val & 0x3FFF_FFFF, k as int) == (k < 30 && bit(val, k as int)),
        bit((x | val) & 0x3FFF_FFFF, k as int) == (k < 30 && (bit(x, k as int) || bit(val, k as int))),
        bit((x & !val) & 0x3FFF_FFFF, k as int) == (k < 30 && bit(x, k as int) && !bit(val, k as int)),
        bit((x ^ val) & 0x3FFF_FFFF, k as int) == (k < 30 && bit(x, k as int) != bit(val, k as int)),
{
    lemma_bit_ops(x, val, k, 0);
    lemma_bit_ops(val, 0x3FFF_FFFF, k, 0);
    lemma_bit_ops(x | val, 0x3FFF_FFFF, k, 0);
    lemma_bit_ops(x & !val, 0x3FFF_FFFF, k, 0);
    lemma_bit_ops(x ^ val, 0x3FFF_FFFF, k, 0);
}

/// Two inversions of one mask cancel, on every pin.
#[verifier::rlimit(40)]
pub proof fn law_inverting_twice_changes_nothing(s: Sio, val: u32, core: usize, i: int)
    requires
        0 <= i < 30,
    ensures
        bit(s.after_write(0x1C, val, core).after_write(0x1C, val, core).gpio_out, i) == bit(s.gpio_out, i),
        bit(s.after_write(0x2C, val, core).after_write(0x2C, val, core).gpio_oe, i) == bit(s.gpio_oe, i),
{
    law_pin_registers(s, 3, val, core, i);
    law_pin_registers(s.after_write(0x1C, val, core), 3, val, core, i);
    law_pin_registers(s.after_write(0x2C, val, core), 3, val, core, i);
}

/// Each core reads its own number.
#[verifier::rlimit(40)]
pub proof fn law_core_number(s: Sio)
    ensures
        s.word_at(0, 0) == 0,
        s.word_at(0, 1) == 1,
{
}

/// The mailbox status of a core: whether there is something for it (bit 0),
/// whether it may send (bit 1), and its two sticky errors, which it takes down
/// by writing ones.
#[verifier::rlimit(40)]
pub proof fn law_mailbox_status(s: Sio, core: usize, val: u32)
    requires
        core < 2,
    ensures
        ({
            let me = core as int;
            let w = s.word_at(0x50, core);
            let after = s.after_write(0x50, val, core);
            &&& bit(w, 0) == (s.fifo_to[me].items().len() > 0)
            &&& bit(w, 1) == (s.fifo_to[1 - me].items().len() < 8)
            &&& bit(w, 2) == s.wof[me]
            &&& bit(w, 3) == s.roe[me]
            &&& w < 16
            &&& after.wof[me] == (s.wof[me] && !bit(val, 2))
            &&& after.roe[me] == (s.roe[me] && !bit(val, 3))
            &&& after.wof[1 - me] == s.wof[1 - me]
            &&& after.roe[1 - me] == s.roe[1 - me]
            &&& after == (Sio { wof: after.wof, roe: after.roe, ..s })
        }),
{
    let me = core as int;
    lemma_status(
        s.fifo_to[me].count > 0,
        s.fifo_to[1 - me].count < 8,
        s.wof[me],
        s.roe[me],
        val,
    );
}

proof fn lemma_status(a: bool, b: bool, c: bool, d: bool, val: u32)
    by (bit_vector)
    ensures
        ({
            let w = (if a { 0x1u32 } else { 0u32 }) | (if b { 0x2u32 } else { 0u32 }) | (if c { 0x4u32 } else { 0u32 }) | (if d { 0x8u32 } else { 0u32 });
            &&& ((w >> 0u32) & 1 == 1) == a
            &&& ((w >> 1u32) & 1 == 1) == b
            &&& ((w >> 2u32) & 1 == 1) == c
            &&& ((w >> 3u32) & 1 == 1) == d
            &&& w < 16
        }),
        val & 0x4 == 0 <==> (val >> 2u32) & 1 != 1,
        val & 0x8 == 0 <==> (val >> 3u32) & 1 != 1,
{
}

/// A core that reads its mailbox takes the oldest word; on an empty one it
/// gets zero and the underflow is on record. A core that writes appends to the
/// other's mailbox; on a full one the word is lost and the overflow on record.
/// (Core 0's words drive the launch handshake instead while that is armed.)
#[verifier::rlimit(40)]
pub proof fn law_mailbox_order(s: Sio, val: u32, core: usize)
    requires
        core < 2,
        s.fifo_to[0].count <= 8,
        s.fifo_to[1].count <= 8,
    ensures
        ({
            let me = core as int;
            let mine = s.fifo_to[me].items();
            let other = s.fifo_to[1 - me].items();
            let read = s.after_read(0x58, core);
            let wrote = s.after_write(0x54, val, core);
            &&& mine.len() > 0 ==> s.word_at(0x58, core) == mine[0] && read.fifo_to[me].items() == mine.skip(1)
                && read.roe == s.roe
            &&& mine.len() == 0 ==> s.word_at(0x58, core) == 0 && read.roe[me] && read.fifo_to == s.fifo_to
            &&& read.fifo_to[1 - me] == s.fifo_to[1 - me]
            &&& core == 1 || !s.handshake_armed ==> {
                &&& other.len() < 8 ==> wrote.fifo_to[1 - me].items() == other.push(val) && wrote.wof == s.wof
                    && wrote.pending_fifo_event == Some((1 - me) as usize)
                &&& other.len() == 8 ==> wrote == (Sio { wof: wrote.wof, ..s }) && wrote.wof[me] && wrote.wof[1 - me]
                    == s.wof[1 - me]
                &&& wrote.fifo_to[me] == s.fifo_to[me]
            }
        }),
{
    let me = core as int;
    law_fifo_push_appends(s.fifo_to[1 - me], val, 8);
    if s.fifo_to[me].count > 0 {
        law_fifo_drop_front(s.fifo_to[me], 1);
    }
}

/// Lock `k`: a read by a core claims it where it is free and says so with the
/// lock's own bit; a write frees it; no other lock is touched, and the state
/// register shows every claimed lock.
#[verifier::rlimit(40)]
pub proof fn law_spinlock(s: Sio, k: int, val: u32, core: usize, j: int)
    requires
        0 <= k < 32,
        0 <= j < 32,
    ensures
        ({
            let offset = (0x100 + 4 * k) as u32;
            let w = s.word_at(offset, core);
            let read = s.after_read(offset, core);
            let wrote = s.after_write(offset, val, core);
            &&& bit(w, j) == (j == k && !bit(s.spinlocks, k))
            &&& bit(read.spinlocks, j) == (j == k || bit(s.spinlocks, j))
            &&& bit(wrote.spinlocks, j) == (j != k && bit(s.spinlocks, j))
            &&& read == (Sio { spinlocks: read.spinlocks, ..s })
            &&& wrote == (Sio { spinlocks: wrote.spinlocks, ..s })
            &&& s.word_at(0x5C, core) == s.spinlocks
        }),
{
    lemma_bit_ops(s.spinlocks, 0, j as u32, k as u32);
    lemma_bit_ops(s.spinlocks, 0, k as u32, k as u32);
}

/// The unsigned divider, through its registers: after dividend and divisor are
/// written, in either order, quotient times divisor plus remainder is the
/// dividend, with the remainder below the divisor. Each core has its own.
#[verifier::rlimit(40)]
pub proof fn law_unsigned_divider(s: Sio, a: u32, b: u32, core: usize)
    requires
        core < 2,
        b != 0,
    ensures
        ({
            let one = s.after_write(0x60, a, core).after_write(0x64, b, core);
            let two = s.after_write(0x64, b, core).after_write(0x60, a, core);
            let q = one.word_at(0x70, core);
            let r = one.word_at(0x74, core);
            &&& q * b + r == a && r < b
            &&& two.word_at(0x70, core) == q && two.word_at(0x74, core) == r
            &&& one.word_at(0x60, core) == a && one.word_at(0x64, core) == b
            &&& one.dividers[1 - core as int] == s.dividers[1 - core as int]
        }),
{
    let one = s.after_write(0x60, a, core);
    let d = crate::bus::sio::Divider { divisor: b, ..one.dividers[core as int] };
    law_unsigned_division(d);
}

/// The signed divider, through its registers: the same identity on signed
/// numbers, with a remainder of smaller magnitude than the divisor and the
/// sign of the dividend.
#[verifier::rlimit(40)]
pub proof fn law_signed_divider(s: Sio, a: u32, b: u32, core: usize)
    requires
        core < 2,
        b != 0,
        !(a == 0x8000_0000 && b == 0xFFFF_FFFF),
    ensures
        ({
            let one = s.after_write(0x68, a, core).after_write(0x6C, b, core);
            let two = s.after_write(0x6C, b, core).after_write(0x68, a, core);
            let q = signed(one.word_at(0x70, core));
            let r = signed(one.word_at(0x74, core));
            &&& q * signed(b) + r == signed(a)
            &&& (if r < 0 { -r } else { r }) < (if signed(b) < 0 { -signed(b) } else { signed(b) })
            &&& r != 0 ==> (r < 0) == (signed(a) < 0)
            &&& two.word_at(0x70, core) == one.word_at(0x70, core)
            &&& two.word_at(0x74, core) == one.word_at(0x74, core)
        }),
{
    let one = s.after_write(0x68, a, core);
    let d = crate::bus::sio::Divider { divisor: b, ..one.dividers[core as int] };
    law_signed_division(d);
    assert(0 <= abs(signed(a)) % abs(signed(b)) < abs(signed(b)));
}

/// Division by zero: the remainder is the dividend, the quotient all ones, or
/// one for a negative dividend of the signed divider.
#[verifier::rlimit(40)]
pub proof fn law_division_by_zero(s: Sio, a: u32, core: usize)
    requires
        core < 2,
    ensures
        ({
            let u = s.after_write(0x60, a, core).after_write(0x64, 0, core);
            let i = s.after_write(0x68, a, core).after_write(0x6C, 0, core);
            &&& u.word_at(0x70, core) == 0xFFFF_FFFF && u.word_at(0x74, core) == a
            &&& i.word_at(0x70, core) == (if signed(a) < 0 {
                1u32
            } else {
                0xFFFF_FFFF
            })
            &&& i.word_at(0x74, core) == a
        }),
{
}

/// A division is done at once (CSR bit 0) and leaves its result unread (bit
/// 1); reading both halves of the result makes the divider clean.
#[verifier::rlimit(40)]
pub proof fn law_divider_status(s: Sio, a: u32, core: usize)
    requires
        core < 2,
    ensures
        ({
            let d = s.after_write(0x60, a, core);
            &&& d.word_at(0x78, core) == 3
            &&& d.after_read(0x70, core).word_at(0x78, core) == 3
            &&& d.after_read(0x70, core).after_read(0x74, core).word_at(0x78, core) == 1
            &&& d.after_read(0x74, core).after_read(0x70, core).word_at(0x78, core) == 1
        }),
{
}

/// Bit `i` of a lane's value: the accumulator shifted right by the control
/// word's low five bits, kept from the mask's lowest to its highest bit, and
/// for a signed lane with the top of the mask copied upwards.
pub open spec fn lane_bit(accum: u32, ctrl: u32, i: int) -> bool {
    let shift = ctrl as int % 32;
    let lsb = ctrl as int / 32 % 32;
    let msb = ctrl as int / 1024 % 32;
    let is_signed = ctrl as int / 0x8000 % 2 == 1;
    let from = |k: int| if is_signed {
        bit(
            accum,
            if k + shift < 31 {
                k + shift
            } else {
                31
            },
        )
    } else {
        k + shift < 32 && bit(accum, k + shift)
    };
    if msb < lsb {
        false
    } else if i <= msb {
        i >= lsb && from(i)
    } else {
        is_signed && from(msb)
    }
}

proof fn lemma_lane_digits(ctrl: u32, lsb: u32, msb: u32, i: u32)
    by (bit_vector)
    requires
        lsb < 32,
        msb < 32,
        i < 32,
    ensures
        ctrl & 0x1F == ctrl % 32,
        (ctrl >> 5) & 0x1F == ctrl / 32 % 32,
        (ctrl >> 10) & 0x1F == ctrl / 1024 % 32,
        ctrl & 0x8000 != 0 <==> ctrl / 0x8000 % 2 == 1,
        ctrl & 0x40_0000 != 0 <==> ctrl / 0x40_0000 % 2 == 1,
        msb >= lsb ==> ((((0xFFFF_FFFFu32 >> ((31 - msb) as u32)) & (0xFFFF_FFFFu32 << lsb)) >> i) & 1 == 1 <==> (lsb
            <= i && i <= msb)),
        ((0xFFFF_FFFFu32 << msb) >> i) & 1 == 1 <==> i >= msb,
{
}

#[verifier::rlimit(40)]
proof fn lemma_lane_value(p: Interp, lane: int, i: int)
    requires
        0 <= lane < 2,
        0 <= i < 32,
    ensures
        bit(p.lane_value(lane), i) == lane_bit(p.regs[0], p.regs[11 + lane], i),
{
    reveal(Interp::lane_value);
    let ctrl = p.regs[11 + lane];
    let accum = p.regs[0];
    lemma_lane_digits(ctrl, 0, 0, 0);
    let shift = ctrl & 0x1F;
    let lsb = (ctrl >> 5) & 0x1F;
    let msb = (ctrl >> 10) & 0x1F;
    let shifted = if ctrl & 0x8000 != 0 {
        asr(accum, shift)
    } else {
        accum >> shift
    };
    let mask = field_mask(lsb, msb);
    lemma_lane_digits(ctrl, lsb, msb, i as u32);
    lemma_lane_digits(ctrl, lsb, msb, msb);
    lemma_shifted(accum, shift, i as u32);
    lemma_shifted(accum, shift, msb);
    lemma_bit_ops(shifted, mask, i as u32, 0);
    lemma_bit_ops(shifted, mask, msb, 0);
    lemma_bit_ops(shifted & mask, 0xFFFF_FFFFu32 << msb, i as u32, 0);
}

#[verifier::rlimit(40)]
proof fn lemma_shifted(x: u32, n: u32, i: u32)
    requires
        n < 32,
        i < 32,
    ensures
        bit(x >> n, i as int) == (i + n < 32 && bit(x, i + n)),
        bit(asr(x, n), i as int) == bit(
            x,
            if i + n < 31 {
                i + n
            } else {
                31
            },
        ),
{
    let y = !x;
    lemma_bit_ops(x, 0, i, n);
    lemma_bit_ops(y, 0, i, n);
    lemma_bit_ops(y >> n, 0, i, 0);
    lemma_bit_ops(x, 0, 31, 0);
    if i + n < 32 {
        lemma_bit_ops(x, 0, (i + n) as u32, 0);
    }
}

/// The results of an interpolator at index `i` of its registers: each lane is
/// its value plus its base, and the full result the sum of both and the third
/// base. With clamping allowed and asked for, lane 0 is held between its two
/// bases instead, as signed numbers.
#[verifier::rlimit(40)]
pub proof fn law_interpolator_results(p: Interp, can_clamp: bool)
    ensures
        ({
            let clamp = can_clamp && p.regs[11] as int / 0x40_0000 % 2 == 1;
            let v = p.lane_value(0);
            let low = p.regs[2];
            let high = p.regs[3];
            let a = p.word_at(5, can_clamp);
            let b = p.word_at(6, can_clamp);
            &&& !clamp ==> a == (v + low) % 0x1_0000_0000
            &&& clamp && signed(low) <= signed(high) ==> {
                &&& signed(low) <= signed(a) <= signed(high)
                &&& signed(low) <= signed(v) <= signed(high) ==> a == v
                &&& signed(v) < signed(low) ==> a == low
                &&& signed(v) > signed(high) ==> a == high
            }
            &&& b == (p.lane_value(1) + high) % 0x1_0000_0000
            &&& p.word_at(7, can_clamp) == (a + b + p.regs[4]) % 0x1_0000_0000
            &&& p.word_at(8, can_clamp) == a
            &&& p.word_at(9, can_clamp) == b
            &&& p.word_at(10, can_clamp) == p.word_at(7, can_clamp)
        }),
{
    lemma_lane_digits(p.regs[11], 0, 0, 0);
    lemma_three(p.lane_value(0), p.regs[2], 0);
    lemma_three(p.lane_value(1), p.regs[3], 0);
    lemma_three(p.word_at(5, can_clamp), p.word_at(6, can_clamp), p.regs[4]);
}

#[verifier::rlimit(40)]
proof fn lemma_three(a: u32, b: u32, c: u32)
    ensures
        wadd(a, b) == (a + b) % 0x1_0000_0000,
        wadd(wadd(a, b), c) == (a + b + c) % 0x1_0000_0000,
{
    reveal(wadd);
}

/// Where the two interpolators of a core are; only the second can clamp.
#[verifier::rlimit(40)]
pub proof fn law_interpolator_places(s: Sio, core: usize, k: int)
    requires
        core < 2,
        0 <= k < 16,
    ensures
        s.word_at((0x80 + 4 * k) as u32, core) == s.interp0[core as int].word_at(k, false),
        s.word_at((0xC0 + 4 * k) as u32, core) == s.interp1[core as int].word_at(k, true),
{
}

/// A lane's value, bit by bit.
#[verifier::rlimit(40)]
pub proof fn law_lane_value(p: Interp, lane: int, i: int)
    requires
        0 <= lane < 2,
        0 <= i < 32,
    ensures
        bit(p.lane_value(lane), i) == lane_bit(p.regs[0], p.regs[11 + lane], i),
{
    lemma_lane_value(p, lane, i);
}

/// The plain registers of an interpolator keep what is written, for each core
/// on its own.
#[verifier::rlimit(40)]
pub proof fn law_interpolator_registers(s: Sio, k: int, val: u32, core: usize)
    requires
        0 <= k < 16,
        !(5 <= k < 11),
        core < 2,
    ensures
        ({
            let a = s.after_write((0x80 + 4 * k) as u32, val, core);
            let b = s.after_write((0xC0 + 4 * k) as u32, val, core);
            &&& a.word_at((0x80 + 4 * k) as u32, core) == val
            &&& b.word_at((0xC0 + 4 * k) as u32, core) == val
            &&& a.interp0[core as int].regs[k] == val
            &&& b.interp1[core as int].regs[k] == val
            &&& a.interp0[1 - core as int] == s.interp0[1 - core as int] && a.interp1 == s.interp1
            &&& b.interp1[1 - core as int] == s.interp1[1 - core as int] && b.interp0 == s.interp0
        }),
{
}

} // verus!
