//! What the state machines do, pin by pin and bit by bit.
use vstd::prelude::*;

use crate::bits::{bit, lemma_bit_ops, wsub};
use crate::fifo::{law_fifo_drop_front, law_fifo_push_appends};
use crate::pio::sm::{field, flag_index, law_reversal, low_mask, rotl, rotr, with_pins, Executed, Shared, Sm};

verus! {

/// The fields that instructions and configuration words are made of, as
/// digits of a number.
pub proof fn lemma_digits(x: u32)
    by (bit_vector)
    ensures
        ((1u32 << 2u32) - 1) as u32 == 3,
        ((1u32 << 3u32) - 1) as u32 == 7,
        ((1u32 << 5u32) - 1) as u32 == 31,
        ((1u32 << 6u32) - 1) as u32 == 63,
        ((1u32 << 8u32) - 1) as u32 == 0xFF,
        ((1u32 << 16u32) - 1) as u32 == 0xFFFF,
        (x >> 0) & 31 == x % 32,
        (x >> 3) & 3 == x / 8 % 4,
        (x >> 5) & 3 == x / 32 % 4,
        (x >> 5) & 7 == x / 32 % 8,
        (x >> 5) & 31 == x / 32 % 32,
        (x >> 7) & 31 == x / 128 % 32,
        (x >> 8) & 31 == x / 256 % 32,
        (x >> 10) & 31 == x / 1024 % 32,
        (x >> 12) & 31 == x / 4096 % 32,
        (x >> 13) & 7 == x / 8192 % 8,
        (x >> 15) & 31 == x / 0x8000 % 32,
        (x >> 20) & 31 == x / 0x10_0000 % 32,
        (x >> 20) & 63 == x / 0x10_0000 % 64,
        (x >> 24) & 31 == x / 0x100_0000 % 32,
        (x >> 25) & 31 == x / 0x200_0000 % 32,
        (x >> 26) & 7 == x / 0x400_0000 % 8,
        (x >> 29) & 7 == x / 0x2000_0000,
        x & 0x7 == x % 8,
        x & 0x1F == x % 32,
        x & 0xF == x % 16,
        x & 0xFFFF == x % 0x1_0000,
        x & 0x10 != 0 <==> x / 16 % 2 == 1,
        x & 0x20 != 0 <==> x / 32 % 2 == 1,
        x & 0x40 != 0 <==> x / 64 % 2 == 1,
        x & 0x80 != 0 <==> x / 128 % 2 == 1,
        x & 0x80 == 0 <==> x / 128 % 2 == 0,
        x & 0x3 == x % 4,
        (x & 0x4) | 0 == x / 4 % 2 * 4,
        (x & 0x4) | 1 == x / 4 % 2 * 4 + 1,
        (x & 0x4) | 2 == x / 4 % 2 * 4 + 2,
        (x & 0x4) | 3 == x / 4 % 2 * 4 + 3,
        x >> 16 == x / 0x1_0000,
        (x >> 8) & 0x00FF_FFFF == x / 256,
        x & 0x1_0000 != 0 <==> x / 0x1_0000 % 2 == 1,
        x & 0x2_0000 != 0 <==> x / 0x2_0000 % 2 == 1,
        x & 0x4_0000 != 0 <==> x / 0x4_0000 % 2 == 1,
        x & 0x8_0000 != 0 <==> x / 0x8_0000 % 2 == 1,
        x & 0x2000_0000 != 0 <==> x / 0x2000_0000 % 2 == 1,
        x & 0x4000_0000 != 0 <==> x / 0x4000_0000 % 2 == 1,
        x & 0x8000_0000 != 0 <==> x / 0x8000_0000 == 1,
        (x & 0xFFFF_FF00) / 256 == x / 256,
        (x & 0xFFFF_FF00) % 256 == 0,
        x < 32 ==> x >> 0 == x,
        x < 32 ==> x >> 1 == x / 2,
        x < 32 ==> x >> 2 == x / 4,
        x < 32 ==> x >> 3 == x / 8,
        x < 32 ==> x >> 4 == x / 16,
        x < 32 ==> x >> 5 == 0,
        x < 32 ==> ((x >> 0) >> 4) & 1 == x / 16,
        x < 32 ==> ((x >> 1) >> 3) & 1 == x / 16,
        x < 32 ==> ((x >> 2) >> 2) & 1 == x / 16,
        x < 32 ==> ((x >> 3) >> 1) & 1 == x / 16,
        x < 32 ==> ((x >> 4) >> 0) & 1 == x / 16,
{
}

/// Which of the pins from `base` up, around the end, pin `p` is.
pub open spec fn place(p: int, base: int) -> int {
    (p - base) % 32
}

/// After `count` pins from `base` up have been driven with `val`, each of them
/// shows its bit, and every other pin what it showed.
pub open spec fn drives(before: u32, after: u32, base: int, count: int, val: u32, p: int) -> bool {
    bit(after, p) == (if place(p, base) < count {
        bit(val, place(p, base))
    } else {
        bit(before, p)
    })
}

/// Rotation moves bit `(i - n) mod 32` to bit `i`, or the other way.
#[verifier::rlimit(40)]
proof fn lemma_rotations(x: u32, n: u32, i: int)
    requires
        n < 32,
        0 <= i < 32,
    ensures
        bit(rotl(x, n), i) == bit(x, (i - n) % 32),
        bit(rotr(x, n), i) == bit(x, (i + n) % 32),
{
    if n > 0 {
        let k = (32 - n) as u32;
        lemma_bit_ops(x << n, x >> k, i as u32, 0);
        lemma_bit_ops(x >> n, x << k, i as u32, 0);
        lemma_bit_ops(x, 0, i as u32, n);
        lemma_bit_ops(x, 0, i as u32, k);
    }
}

/// Bit `i` of the lowest `n` bits.
#[verifier::rlimit(40)]
pub proof fn lemma_low_mask(n: u32, i: int)
    requires
        0 <= i < 32,
    ensures
        bit(low_mask(n), i) == (i < n),
{
    if n < 32 {
        lemma_bit_ops(0, 0, i as u32, n);
    } else {
        lemma_bit_ops(0, 0, i as u32, 0);
    }
}

#[verifier::rlimit(40)]
proof fn lemma_with_pins(pins: u32, base: u32, count: u32, val: u32, p: int)
    requires
        base < 32,
        0 <= p < 32,
    ensures
        drives(pins, with_pins(pins, base, count, val), base as int, count as int, val, p),
{
    let j = (p - base) % 32;
    let mask = low_mask(count);
    lemma_rotations(mask, base, p);
    lemma_rotations(val & mask, base, p);
    lemma_low_mask(count, j);
    lemma_bit_ops(val, mask, j as u32, 0);
    let hole = rotl(mask, base);
    let data = rotl(val & mask, base);
    lemma_bit_ops(pins, hole, p as u32, 0);
    lemma_bit_ops(pins & !hole, data, p as u32, 0);
}

/// What an instruction word is made of: its code, the field that delay and
/// side-set share, and its arguments.
pub open spec fn encoded(code: int, side: int, args: int) -> u32 {
    (0x2000 * code + 0x100 * side + args) as u32
}

#[verifier::rlimit(40)]
proof fn lemma_encoded(code: int, side: int, args: int)
    requires
        0 <= code < 8,
        0 <= side < 32,
        0 <= args < 256,
    ensures
        field(encoded(code, side, args), 13, 3) == code,
        field(encoded(code, side, args), 8, 5) == side,
        field(encoded(code, side, args), 5, 3) == args / 32,
        field(encoded(code, side, args), 5, 2) == args / 32 % 4,
        field(encoded(code, side, args), 3, 2) == args / 8 % 4,
        encoded(code, side, args) & 0x1F == args % 32,
        encoded(code, side, args) & 0x7 == args % 8,
        encoded(code, side, args) & 0x80 != 0 <==> args >= 128,
        encoded(code, side, args) & 0x40 != 0 <==> args / 64 % 2 == 1,
        encoded(code, side, args) & 0x20 != 0 <==> args / 32 % 2 == 1,
{
    let op = encoded(code, side, args);
    lemma_digits(op);
    lemma_encoded_high(code, side, args);
    lemma_encoded_low(8 * code + side / 4, side % 4, args);
}

#[verifier::rlimit(40)]
proof fn lemma_encoded_high(code: int, side: int, args: int)
    requires
        0 <= code < 8,
        0 <= side < 32,
        0 <= args < 256,
    ensures
        (0x2000 * code + 0x100 * side + args) / 8192 == code,
        (0x2000 * code + 0x100 * side + args) / 256 % 32 == side,
        0x2000 * code + 0x100 * side + args == 0x400 * (8 * code + side / 4) + 0x100 * (side % 4) + args,
{
}

#[verifier::rlimit(40)]
proof fn lemma_encoded_low(high: int, side: int, args: int)
    requires
        0 <= high < 64,
        0 <= side < 4,
        0 <= args < 256,
    ensures
        ({
            let op = 0x400 * high + 0x100 * side + args;
            &&& op / 32 % 8 == args / 32
            &&& op / 32 % 4 == args / 32 % 4
            &&& op / 32 % 2 == args / 32 % 2
            &&& op / 8 % 4 == args / 8 % 4
            &&& op / 64 % 2 == args / 64 % 2
            &&& op / 128 % 2 == args / 128
            &&& op % 32 == args % 32
            &&& op % 8 == args % 8
        }),
{
    let h = 4 * high + side;
    let op = 0x100 * h + args;
    assert(op / 8 == 32 * h + args / 8);
    assert(op / 32 == 8 * h + args / 32);
    assert(op / 64 == 4 * h + args / 64);
    assert(op / 128 == 2 * h + args / 128);
}

/// The instruction changed nothing but the pads: it did not wait or jump.
pub open spec fn only_drives(sm: Sm, e: Executed) -> bool {
    e.sm == sm && !e.stalled && !e.jumped
}

/// `set pins` and `set pindirs` drive the pins that PINCTRL's set base (bits
/// 9:5) and set count (bits 28:26) name with the five bits of the instruction.
#[verifier::rlimit(40)]
pub proof fn law_set_drives_its_pins(sm: Sm, shared: Shared, input: u32, n: u32, side: int, v: int, p: int)
    requires
        0 <= side < 32,
        0 <= v < 32,
        0 <= p < 32,
    ensures
        ({
            let base = sm.pinctrl as int / 32 % 32;
            let count = sm.pinctrl as int / 0x400_0000 % 8;
            let pins = encoded(7, side, v);
            let dirs = encoded(7, side, 128 + v);
            let a = sm.executed(shared, pins, input, n);
            let b = sm.executed(shared, dirs, input, n);
            &&& drives(sm.side_set(shared, pins).out, a.shared.out, base, count, v as u32, p)
            &&& a.shared == (Shared { out: a.shared.out, ..sm.side_set(shared, pins) })
            &&& only_drives(sm, a)
            &&& drives(sm.side_set(shared, dirs).oe, b.shared.oe, base, count, v as u32, p)
            &&& b.shared == (Shared { oe: b.shared.oe, ..sm.side_set(shared, dirs) })
            &&& only_drives(sm, b)
        }),
{
    reveal(Sm::executed);
    lemma_encoded(7, side, v);
    lemma_encoded(7, side, 128 + v);
    lemma_digits(sm.pinctrl);
    let base = field(sm.pinctrl, 5, 5);
    let count = field(sm.pinctrl, 26, 3);
    lemma_with_pins(sm.side_set(shared, encoded(7, side, v)).out, base, count, v as u32, p);
    lemma_with_pins(sm.side_set(shared, encoded(7, side, 128 + v)).oe, base, count, v as u32, p);
}

/// `set x` and `set y` load a scratch register.
#[verifier::rlimit(40)]
pub proof fn law_set_loads_scratch(sm: Sm, shared: Shared, input: u32, n: u32, side: int, v: int)
    requires
        0 <= side < 32,
        0 <= v < 32,
    ensures
        ({
            let a = sm.executed(shared, encoded(7, side, 32 + v), input, n);
            let b = sm.executed(shared, encoded(7, side, 64 + v), input, n);
            &&& a.sm == (Sm { x: v as u32, ..sm })
            &&& a.shared == sm.side_set(shared, encoded(7, side, 32 + v)) && !a.stalled && !a.jumped
            &&& b.sm == (Sm { y: v as u32, ..sm })
            &&& b.shared == sm.side_set(shared, encoded(7, side, 64 + v)) && !b.stalled && !b.jumped
        }),
{
    reveal(Sm::executed);
    lemma_encoded(7, side, 32 + v);
    lemma_encoded(7, side, 64 + v);
}

/// With no side-set pins configured, no instruction side-sets anything. With
/// `k` of them, the top `k` bits of the shared field drive the pins from the
/// side-set base (bits 14:10) up; the optional enable takes one bit away, and
/// EXECCTRL says whether levels or directions are driven.
#[verifier::rlimit(40)]
pub proof fn law_side_set(sm: Sm, shared: Shared, op: u32, p: int)
    requires
        0 <= p < 32,
    ensures
        ({
            let side = op as int / 256 % 32;
            let k = sm.pinctrl as int / 0x2000_0000;
            let base = sm.pinctrl as int / 1024 % 32;
            let dirs = sm.execctrl as int / 0x2000_0000 % 2 == 1;
            let optional = sm.execctrl as int / 0x4000_0000 % 2 == 1;
            let after = sm.side_set(shared, op);
            &&& after.irq == shared.irq
            &&& k == 0 ==> after == shared
            &&& 0 < k <= 5 && !optional && !dirs ==> after.oe == shared.oe && drives(
                shared.out,
                after.out,
                base,
                k,
                top_bits(side, k),
                p,
            )
            &&& 0 < k <= 5 && !optional && dirs ==> after.out == shared.out && drives(
                shared.oe,
                after.oe,
                base,
                k,
                top_bits(side, k),
                p,
            )
            &&& 0 < k <= 5 && optional && side < 16 ==> after == shared
            &&& 0 < k <= 5 && optional && side >= 16 && !dirs ==> after.oe == shared.oe && drives(
                shared.out,
                after.out,
                base,
                k - 1,
                top_bits(side, k),
                p,
            )
            &&& 0 < k <= 5 && optional && side >= 16 && dirs ==> after.out == shared.out && drives(
                shared.oe,
                after.oe,
                base,
                k - 1,
                top_bits(side, k),
                p,
            )
        }),
{
    lemma_digits(op);
    lemma_digits(sm.pinctrl);
    lemma_digits(sm.execctrl);
    let side = field(op, 8, 5);
    let k = sm.side_bits();
    let base = field(sm.pinctrl, 10, 5);
    let raw = side >> ((5 - k) as u32);
    lemma_top_bits(side);
    assert(raw == top_bits(side as int, k as int));
    lemma_with_pins(shared.out, base, k, raw, p);
    lemma_with_pins(shared.oe, base, k, raw, p);
    if k > 0 {
        lemma_with_pins(shared.out, base, (k - 1) as u32, raw, p);
        lemma_with_pins(shared.oe, base, (k - 1) as u32, raw, p);
    }
}

/// The top `k` of five bits.
pub open spec fn top_bits(side: int, k: int) -> u32 {
    (if k == 5 {
        side
    } else if k == 4 {
        side / 2
    } else if k == 3 {
        side / 4
    } else if k == 2 {
        side / 8
    } else if k == 1 {
        side / 16
    } else {
        0
    }) as u32
}

#[verifier::rlimit(40)]
proof fn lemma_top_bits(s: u32)
    requires
        s < 32,
    ensures
        s >> 0 == s,
        s >> 1 == s / 2,
        s >> 2 == s / 4,
        s >> 3 == s / 8,
        s >> 4 == s / 16,
        s >> 5 == 0,
        ((s >> 0) >> 4) & 1 == s / 16,
        ((s >> 1) >> 3) & 1 == s / 16,
        ((s >> 2) >> 2) & 1 == s / 16,
        ((s >> 3) >> 1) & 1 == s / 16,
        ((s >> 4) >> 0) & 1 == s / 16,
{
    lemma_digits(s);
}

/// The eight conditions of `jmp`. Counting a scratch register down happens
/// whether or not the jump is taken, and the test is of the value before.
#[verifier::rlimit(40)]
pub proof fn law_jmp(sm: Sm, shared: Shared, input: u32, n: u32, side: int, cond: int, addr: int)
    requires
        0 <= side < 32,
        0 <= cond < 8,
        0 <= addr < 32,
    ensures
        ({
            let op = encoded(0, side, 32 * cond + addr);
            let e = sm.executed(shared, op, input, n);
            let pull = sm.shiftctrl as int / 0x200_0000 % 32;
            let threshold = if pull == 0 {
                32
            } else {
                pull
            };
            let taken = if cond == 0 {
                true
            } else if cond == 1 {
                sm.x == 0
            } else if cond == 2 {
                sm.x != 0
            } else if cond == 3 {
                sm.y == 0
            } else if cond == 4 {
                sm.y != 0
            } else if cond == 5 {
                sm.x != sm.y
            } else if cond == 6 {
                bit(input, sm.execctrl as int / 0x100_0000 % 32)
            } else {
                sm.osr_count < threshold
            };
            &&& e.jumped == taken && !e.stalled
            &&& e.shared == sm.side_set(shared, op)
            &&& e.sm == (Sm {
                pc: if taken {
                    addr as u32
                } else {
                    sm.pc
                },
                x: if cond == 2 {
                    ((sm.x - 1) % 0x1_0000_0000) as u32
                } else {
                    sm.x
                },
                y: if cond == 4 {
                    ((sm.y - 1) % 0x1_0000_0000) as u32
                } else {
                    sm.y
                },
                ..sm
            })
        }),
{
    reveal(Sm::executed);
    reveal(wsub);
    lemma_encoded(0, side, 32 * cond + addr);
    lemma_digits(sm.execctrl);
    lemma_digits(sm.shiftctrl);
}

/// The flag that index `idx` names to machine `n`: from 16 up the machine's
/// number is added, modulo four.
pub open spec fn named_flag(idx: int, n: int) -> int {
    if idx >= 16 {
        idx / 4 % 2 * 4 + (idx % 4 + n) % 4
    } else {
        idx % 8
    }
}

#[verifier::rlimit(40)]
proof fn lemma_named_flag(idx: u32, n: u32)
    requires
        idx < 32,
        n < 4,
    ensures
        flag_index(idx, n) == named_flag(idx as int, n as int),
        0 <= named_flag(idx as int, n as int) < 8,
{
    lemma_digits(idx);
}

/// What raising and taking down flag `f` does to bit `q` of the flags.
#[verifier::rlimit(40)]
proof fn lemma_flag_bit(irq: u32, f: u32, q: int)
    requires
        f < 8,
        0 <= q < 32,
    ensures
        bit(irq | (1u32 << f), q) == (q == f || bit(irq, q)),
        bit(irq & !(1u32 << f), q) == (q != f && bit(irq, q)),
        irq & (1u32 << f) != 0 <==> bit(irq, f as int),
{
    lemma_bit_ops(irq, 0, q as u32, f);
    lemma_bit_ops(irq, 0, f, 0);
}

/// `wait` holds the machine until a pin, a mapped pin or a flag has the level
/// asked for; waiting for a flag to rise takes it down again.
#[verifier::rlimit(40)]
pub proof fn law_wait(sm: Sm, shared: Shared, input: u32, n: u32, side: int, want: bool, src: int, idx: int, q: int)
    requires
        0 <= side < 32,
        0 <= src < 3,
        0 <= idx < 32,
        0 <= q < 32,
        n < 4,
    ensures
        ({
            let op = encoded(
                1,
                side,
                if want {
                    128 + 32 * src + idx
                } else {
                    32 * src + idx
                },
            );
            let s = sm.side_set(shared, op);
            let e = sm.executed(shared, op, input, n);
            let f = named_flag(idx, n as int);
            let level = if src == 0 {
                bit(input, idx)
            } else if src == 1 {
                bit(input, (idx + sm.pinctrl as int / 0x8000 % 32) % 32)
            } else {
                bit(s.irq, f)
            };
            &&& e.stalled == (level != want)
            &&& e.sm == sm && !e.jumped
            &&& e.shared == (Shared { irq: e.shared.irq, ..s })
            &&& bit(e.shared.irq, q) == (bit(s.irq, q) && !(src == 2 && want && q == f))
        }),
{
    reveal(Sm::executed);
    let args = if want {
        128 + 32 * src + idx
    } else {
        32 * src + idx
    };
    lemma_encoded(1, side, args);
    lemma_digits(sm.pinctrl);
    let op = encoded(1, side, args);
    let s = sm.side_set(shared, op);
    lemma_named_flag(idx as u32, n);
    lemma_flag_bit(s.irq, flag_index(idx as u32, n), q);
    lemma_rotations(input, field(sm.pinctrl, 15, 5), idx);
}

/// `irq`: takes a flag down, raises it, or raises it and waits until it has
/// been taken down.
#[verifier::rlimit(40)]
pub proof fn law_irq(sm: Sm, shared: Shared, input: u32, n: u32, side: int, idx: int, q: int)
    requires
        0 <= side < 32,
        0 <= idx < 32,
        0 <= q < 32,
        n < 4,
    ensures
        ({
            let set = encoded(6, side, idx);
            let wait = encoded(6, side, 32 + idx);
            let clear = encoded(6, side, 64 + idx);
            let f = named_flag(idx, n as int);
            let a = sm.executed(shared, set, input, n);
            let b = sm.executed(shared, wait, input, n);
            let c = sm.executed(shared, clear, input, n);
            let before = |op: u32| sm.side_set(shared, op);
            &&& !sm.irq_waiting ==> only_drives(sm, a) && bit(a.shared.irq, q) == (q == f || bit(before(set).irq, q))
            &&& a.shared == (Shared { irq: a.shared.irq, ..before(set) })
            &&& only_drives(sm, c) && bit(c.shared.irq, q) == (q != f && bit(before(clear).irq, q))
            &&& c.shared == (Shared { irq: c.shared.irq, ..before(clear) })
            &&& !sm.irq_waiting ==> b.stalled && b.sm == (Sm { irq_waiting: true, ..sm }) && bit(b.shared.irq, q) == (q
                == f || bit(before(wait).irq, q))
            &&& sm.irq_waiting ==> b.shared == before(wait) && b.stalled == bit(before(wait).irq, f) && b.sm == (Sm {
                irq_waiting: b.stalled,
                ..sm
            })
            &&& b.shared == (Shared { irq: b.shared.irq, ..before(wait) }) && !b.jumped
        }),
{
    reveal(Sm::executed);
    lemma_encoded(6, side, idx);
    lemma_encoded(6, side, 32 + idx);
    lemma_encoded(6, side, 64 + idx);
    lemma_named_flag(idx as u32, n);
    let f = flag_index(idx as u32, n);
    lemma_flag_bit(sm.side_set(shared, encoded(6, side, idx)).irq, f, q);
    lemma_flag_bit(sm.side_set(shared, encoded(6, side, 32 + idx)).irq, f, q);
    lemma_flag_bit(sm.side_set(shared, encoded(6, side, 64 + idx)).irq, f, q);
}

/// Bit `i` of a source operand.
pub open spec fn source_bit(sm: Sm, input: u32, src: int, i: int) -> bool {
    if src == 0 {
        bit(input, (i + sm.pinctrl as int / 0x8000 % 32) % 32)
    } else if src == 1 {
        bit(sm.x, i)
    } else if src == 2 {
        bit(sm.y, i)
    } else if src == 6 {
        bit(sm.isr, i)
    } else if src == 7 {
        bit(sm.osr, i)
    } else {
        false
    }
}

#[verifier::rlimit(40)]
proof fn lemma_source(sm: Sm, input: u32, src: u32, i: int)
    requires
        0 <= i < 32,
    ensures
        bit(sm.in_source(src, input), i) == source_bit(sm, input, src as int, i),
{
    lemma_digits(sm.pinctrl);
    lemma_rotations(input, field(sm.pinctrl, 15, 5), i);
    lemma_bit_ops(0, 0, i as u32, 0);
}

/// A count of zero stands for 32.
pub open spec fn or_all(n: int) -> int {
    if n == 0 {
        32
    } else {
        n
    }
}

/// The smaller of a count and 32.
pub open spec fn at_most_all(n: int) -> int {
    if n > 32 {
        32
    } else {
        n
    }
}

/// Bit `i` of a register after `n` source bits have moved in: from the left
/// end where it shifts right (SHIFTCTRL bit 18), else from the right.
pub open spec fn moved_in(sm: Sm, input: u32, src: int, n: int, i: int) -> bool {
    if sm.shiftctrl as int / 0x4_0000 % 2 == 1 {
        if i + n < 32 {
            bit(sm.isr, i + n)
        } else {
            source_bit(sm, input, src, i + n - 32)
        }
    } else if i < n {
        source_bit(sm, input, src, i)
    } else {
        bit(sm.isr, i - n)
    }
}

#[verifier::rlimit(40)]
proof fn lemma_moved_in(sm: Sm, input: u32, src: u32, n: u32, i: int)
    requires
        1 <= n <= 32,
        0 <= i < 32,
    ensures
        bit(sm.shifted_in(sm.in_source(src, input), n), i) == moved_in(sm, input, src as int, n as int, i),
{
    let v = sm.in_source(src, input);
    lemma_digits(sm.shiftctrl);
    lemma_source(sm, input, src, i);
    if n < 32 {
        let k = (32 - n) as u32;
        lemma_bit_ops(sm.isr >> n, v << k, i as u32, 0);
        lemma_bit_ops(sm.isr, 0, i as u32, n);
        lemma_bit_ops(v, 0, i as u32, k);
        if i + n >= 32 {
            lemma_source(sm, input, src, i + n - 32);
        }
        lemma_bit_ops(sm.isr << n, v & low_mask(n), i as u32, 0);
        lemma_bit_ops(v, low_mask(n), i as u32, 0);
        lemma_low_mask(n, i);
    }
}

/// `in` moves bits into the input register. Once enough are there, automatic
/// push (SHIFTCTRL bit 16) hands the word to the receive queue and empties the
/// register, or waits without effect while the queue is full.
#[verifier::rlimit(40)]
pub proof fn law_in(sm: Sm, shared: Shared, input: u32, n: u32, side: int, src: int, count: int, i: int)
    requires
        0 <= side < 32,
        0 <= src < 8,
        0 <= count < 32,
        0 <= i < 32,
        sm.rx.count <= 16,
    ensures
        ({
            let op = encoded(2, side, 32 * src + count);
            let e = sm.executed(shared, op, input, n);
            let bits = or_all(count);
            let total = at_most_all(sm.isr_count + bits);
            let full = sm.shiftctrl as int / 0x1_0000 % 2 == 1 && total >= or_all(
                sm.shiftctrl as int / 0x10_0000 % 32,
            );
            &&& e.shared == sm.side_set(shared, op) && !e.jumped
            &&& !full ==> !e.stalled && e.sm == (Sm { isr: e.sm.isr, isr_count: total as u32, ..sm }) && bit(
                e.sm.isr,
                i,
            ) == moved_in(sm, input, src, bits, i)
            &&& full && sm.rx.count >= sm.rx_depth() ==> e.stalled && e.sm == sm
            &&& full && sm.rx.count < sm.rx_depth() ==> {
                &&& !e.stalled
                &&& e.sm == (Sm { isr: 0, isr_count: 0, rx: e.sm.rx, ..sm })
                &&& e.sm.rx.items().drop_last() == sm.rx.items()
                &&& bit(e.sm.rx.items().last(), i) == moved_in(sm, input, src, bits, i)
            }
        }),
{
    reveal(Sm::executed);
    lemma_encoded(2, side, 32 * src + count);
    lemma_digits(sm.shiftctrl);
    let bits = or_all(count) as u32;
    lemma_moved_in(sm, input, src as u32, bits, i);
    let w = sm.shifted_in(sm.in_source(src as u32, input), bits);
    law_fifo_push_appends(sm.rx, w, sm.rx_depth());
    assert(sm.rx.items().push(w).drop_last() =~= sm.rx.items());
}

/// The output register that `out` takes its bits from: a new word where
/// automatic pull is due (SHIFTCTRL bit 17).
pub open spec fn pull_is_due(sm: Sm) -> bool {
    sm.shiftctrl as int / 0x2_0000 % 2 == 1 && sm.osr_count >= or_all(sm.shiftctrl as int / 0x200_0000 % 32)
}

/// Bit `i` of what `out` of `n` bits takes from the word `osr`: from the right
/// end where the register shifts right (SHIFTCTRL bit 19), else from the left.
pub open spec fn moved_out(osr: u32, right: bool, n: int, i: int) -> bool {
    i < n && bit(
        osr,
        if right {
            i
        } else {
            i + 32 - n
        },
    )
}

/// Bit `i` of what is left in the register.
pub open spec fn left_over(osr: u32, right: bool, n: int, i: int) -> bool {
    if right {
        i + n < 32 && bit(osr, i + n)
    } else {
        i >= n && bit(osr, i - n)
    }
}

#[verifier::rlimit(40)]
proof fn lemma_moved_out(sm: Sm, n: u32, i: int)
    requires
        1 <= n <= 32,
        0 <= i < 32,
    ensures
        ({
            let right = sm.shiftctrl as int / 0x8_0000 % 2 == 1;
            &&& bit(sm.out_bits(n), i) == moved_out(sm.osr, right, n as int, i)
            &&& bit(sm.shifted_out(n).osr, i) == left_over(sm.osr, right, n as int, i)
        }),
{
    lemma_digits(sm.shiftctrl);
    lemma_low_mask(n, i);
    lemma_bit_ops(sm.osr, low_mask(n), i as u32, 0);
    if n < 32 {
        lemma_bit_ops(sm.osr, 0, i as u32, n);
        lemma_bit_ops(sm.osr, 0, i as u32, (32 - n) as u32);
    }
}

/// The data of an `out` and the machine it leaves, before the data goes
/// anywhere: a due pull takes the oldest word of the transmit queue first,
/// and waits without effect while there is none.
#[verifier::rlimit(40)]
pub proof fn law_out_takes_bits(sm: Sm, shared: Shared, input: u32, n: u32, side: int, count: int, i: int)
    requires
        0 <= side < 32,
        0 <= count < 32,
        0 <= i < 32,
        sm.tx.count <= 16,
    ensures
        ({
            let op = encoded(3, side, 32 + count);
            let e = sm.executed(shared, op, input, n);
            let bits = or_all(count);
            let right = sm.shiftctrl as int / 0x8_0000 % 2 == 1;
            let due = pull_is_due(sm);
            let osr = if due {
                sm.tx.items()[0]
            } else {
                sm.osr
            };
            let used = if due {
                0
            } else {
                sm.osr_count as int
            };
            &&& e.shared == sm.side_set(shared, op) && !e.jumped
            &&& due && sm.tx.count == 0 ==> e.stalled && e.sm == sm
            &&& !(due && sm.tx.count == 0) ==> {
                &&& !e.stalled
                &&& e.sm == (Sm {
                    x: e.sm.x,
                    osr: e.sm.osr,
                    tx: e.sm.tx,
                    osr_count: at_most_all(used + bits) as u32,
                    ..sm
                })
                &&& bit(e.sm.x, i) == moved_out(osr, right, bits, i)
                &&& bit(e.sm.osr, i) == left_over(osr, right, bits, i)
                &&& due ==> e.sm.tx.items() == sm.tx.items().skip(1)
                &&& !due ==> e.sm.tx == sm.tx
            }
        }),
{
    reveal(Sm::executed);
    lemma_encoded(3, side, 32 + count);
    lemma_digits(sm.shiftctrl);
    let bits = or_all(count) as u32;
    lemma_moved_out(sm.refilled(), bits, i);
    if sm.tx.count > 0 {
        law_fifo_drop_front(sm.tx, 1);
    }
}

/// Where the other destinations of `out` put the data that `out x` would load:
/// the pins from the out base (PINCTRL 4:0) up, as many as the out count
/// (25:20) says; their directions; the program counter; the input register;
/// or the instruction to run next.
#[verifier::rlimit(40)]
pub proof fn law_out_destinations(sm: Sm, shared: Shared, input: u32, n: u32, side: int, dst: int, count: int, p: int)
    requires
        0 <= side < 32,
        0 <= dst < 8,
        0 <= count < 32,
        0 <= p < 32,
    ensures
        ({
            let x = sm.executed(shared, encoded(3, side, 32 + count), input, n);
            let op = encoded(3, side, 32 * dst + count);
            let s = sm.side_set(shared, op);
            let e = sm.executed(shared, op, input, n);
            let data = x.sm.x;
            let after = Sm { x: sm.x, ..x.sm };
            let base = sm.pinctrl as int % 32;
            let width = sm.pinctrl as int / 0x10_0000 % 64;
            &&& e.stalled == x.stalled
            &&& x.stalled ==> e.sm == sm && e.shared == s
            &&& !x.stalled && dst == 0 ==> e.sm == after && e.shared == (Shared { out: e.shared.out, ..s }) && drives(
                s.out,
                e.shared.out,
                base,
                width,
                data,
                p,
            )
            &&& !x.stalled && dst == 4 ==> e.sm == after && e.shared == (Shared { oe: e.shared.oe, ..s }) && drives(
                s.oe,
                e.shared.oe,
                base,
                width,
                data,
                p,
            )
            &&& !x.stalled && dst != 0 && dst != 4 ==> e.shared == s
            &&& !x.stalled && dst == 2 ==> e.sm == (Sm { y: data, ..after })
            &&& !x.stalled && dst == 3 ==> e.sm == after
            &&& !x.stalled && dst == 5 ==> e.sm == (Sm { pc: data % 32, ..after }) && e.jumped
            &&& !x.stalled && dst == 6 ==> e.sm == (Sm { isr: data, isr_count: or_all(count) as u32, ..after })
            &&& !x.stalled && dst == 7 ==> e.sm == (Sm { forced: Some(data % 0x1_0000), ..after })
            &&& dst != 5 ==> !e.jumped
        }),
{
    reveal(Sm::executed);
    lemma_encoded(3, side, 32 + count);
    lemma_encoded(3, side, 32 * dst + count);
    lemma_digits(sm.pinctrl);
    let bits = or_all(count) as u32;
    let data = sm.refilled().out_bits(bits);
    lemma_digits(data);
    let s = sm.side_set(shared, encoded(3, side, 32 * dst + count));
    lemma_with_pins(s.out, field(sm.pinctrl, 0, 5), field(sm.pinctrl, 20, 6), data, p);
    lemma_with_pins(s.oe, field(sm.pinctrl, 0, 5), field(sm.pinctrl, 20, 6), data, p);
}

/// `push` hands the input register to the receive queue and empties it. With
/// its condition it does nothing below the threshold; on a full queue it waits
/// if it may, and else loses the word.
#[verifier::rlimit(40)]
pub proof fn law_push(sm: Sm, shared: Shared, input: u32, n: u32, side: int, conditional: bool, block: bool)
    requires
        0 <= side < 32,
        sm.rx.count <= 16,
    ensures
        ({
            let op = encoded(
                4,
                side,
                (if conditional {
                    64int
                } else {
                    0
                }) + (if block {
                    32int
                } else {
                    0
                }),
            );
            let e = sm.executed(shared, op, input, n);
            let skip = conditional && sm.isr_count < or_all(sm.shiftctrl as int / 0x10_0000 % 32);
            let full = sm.rx.count >= sm.rx_depth();
            &&& e.shared == sm.side_set(shared, op) && !e.jumped
            &&& e.stalled == (!skip && full && block)
            &&& skip || e.stalled ==> e.sm == sm
            &&& !skip && !e.stalled ==> e.sm == (Sm { isr: 0, isr_count: 0, rx: e.sm.rx, ..sm })
            &&& !skip && !full ==> e.sm.rx.items() == sm.rx.items().push(sm.isr)
            &&& !skip && full && !block ==> e.sm.rx.items() == sm.rx.items()
        }),
{
    reveal(Sm::executed);
    let args = (if conditional {
        64int
    } else {
        0
    }) + (if block {
        32int
    } else {
        0
    });
    lemma_encoded(4, side, args);
    lemma_digits(sm.shiftctrl);
    law_fifo_push_appends(sm.rx, sm.isr, sm.rx_depth());
}

/// `pull` takes the oldest word of the transmit queue into the output
/// register. With its condition it does nothing below the threshold; on an
/// empty queue it waits if it may, and else takes `x`.
#[verifier::rlimit(40)]
pub proof fn law_pull(sm: Sm, shared: Shared, input: u32, n: u32, side: int, conditional: bool, block: bool)
    requires
        0 <= side < 32,
        sm.tx.count <= 16,
    ensures
        ({
            let op = encoded(
                4,
                side,
                128 + (if conditional {
                    64int
                } else {
                    0
                }) + (if block {
                    32int
                } else {
                    0
                }),
            );
            let e = sm.executed(shared, op, input, n);
            let skip = conditional && sm.osr_count < or_all(sm.shiftctrl as int / 0x200_0000 % 32);
            let none = sm.tx.items().len() == 0;
            &&& e.shared == sm.side_set(shared, op) && !e.jumped
            &&& e.stalled == (!skip && none && block)
            &&& skip || e.stalled ==> e.sm == sm
            &&& !skip && !none ==> e.sm == (Sm { osr: sm.tx.items()[0], osr_count: 0, tx: e.sm.tx, ..sm })
                && e.sm.tx.items() == sm.tx.items().skip(1)
            &&& !skip && none && !block ==> e.sm == (Sm { osr: sm.x, osr_count: 0, ..sm })
        }),
{
    reveal(Sm::executed);
    let args = 128 + (if conditional {
        64int
    } else {
        0
    }) + (if block {
        32int
    } else {
        0
    });
    lemma_encoded(4, side, args);
    lemma_digits(sm.shiftctrl);
    if sm.tx.count > 0 {
        law_fifo_drop_front(sm.tx, 1);
    }
}

/// Bit `i` of what `mov` moves: the source, inverted, or in the opposite
/// order. Source 5 is all ones while the chosen queue holds fewer words than
/// EXECCTRL's level.
pub open spec fn mov_bit(sm: Sm, input: u32, how: int, src: int, i: int) -> bool {
    let j = if how == 2 {
        31 - i
    } else {
        i
    };
    let level = if sm.execctrl as int / 16 % 2 == 1 {
        sm.rx.count as int
    } else {
        sm.tx.count as int
    };
    let b = if src == 5 {
        level < sm.execctrl as int % 16
    } else {
        source_bit(sm, input, src, j)
    };
    if how == 1 {
        !b
    } else {
        b
    }
}

#[verifier::rlimit(40)]
proof fn lemma_mov_value(sm: Sm, input: u32, op: u32, i: int)
    requires
        0 <= i < 32,
    ensures
        bit(sm.mov_value(op, input), i) == mov_bit(sm, input, op as int / 8 % 4, op as int % 8, i),
{
    reveal(Sm::mov_value);
    lemma_digits(op);
    lemma_digits(sm.execctrl);
    let src = op & 0x7;
    let v = if src == 5 {
        sm.status()
    } else {
        sm.in_source(src, input)
    };
    lemma_source(sm, input, src, i);
    lemma_source(sm, input, src, 31 - i);
    lemma_bit_ops(v, 0, i as u32, 0);
    lemma_bit_ops(v, 0, (31 - i) as u32, 0);
    law_reversal(v, i as u32);
}

#[verifier::rlimit(40)]
proof fn lemma_mov_args(dst: int, how: int, src: int)
    requires
        0 <= dst < 8,
        0 <= how < 4,
        0 <= src < 8,
    ensures
        ({
            let args = 32 * dst + 8 * how + src;
            0 <= args < 256 && args / 32 == dst && args / 8 % 4 == how && args % 8 == src
        }),
{
}

#[verifier::rlimit(40)]
proof fn lemma_mov_decoded(sm: Sm, shared: Shared, input: u32, n: u32, side: int, dst: int, how: int, src: int)
    requires
        0 <= side < 32,
        0 <= dst < 8,
        0 <= how < 4,
        0 <= src < 8,
    ensures
        ({
            let op = encoded(5, side, 32 * dst + 8 * how + src);
            &&& sm.executed(shared, op, input, n) == sm.mov(sm.side_set(shared, op), op, input)
            &&& field(op, 5, 3) == dst
            &&& op as int / 8 % 4 == how
            &&& op as int % 8 == src
        }),
{
    let args = 32 * dst + 8 * how + src;
    let op = encoded(5, side, args);
    lemma_mov_args(dst, how, src);
    lemma_encoded(5, side, args);
    lemma_digits(op);
    reveal(Sm::executed);
}

/// `mov`: where each destination puts the word. Loading a shift register also
/// sets its count: nothing shifted in, nothing shifted out.
#[verifier::rlimit(40)]
pub proof fn law_mov(sm: Sm, shared: Shared, input: u32, n: u32, side: int, dst: int, how: int, src: int, i: int)
    requires
        0 <= side < 32,
        0 <= dst < 8,
        0 <= how < 4,
        0 <= src < 8,
        0 <= i < 32,
    ensures
        ({
            let op = encoded(5, side, 32 * dst + 8 * how + src);
            let s = sm.side_set(shared, op);
            let e = sm.executed(shared, op, input, n);
            let want = mov_bit(sm, input, how, src, i);
            &&& !e.stalled && e.jumped == (dst == 5)
            &&& dst == 0 ==> e.sm == sm
            &&& dst != 0 ==> e.shared == s
            &&& dst == 1 ==> e.sm == (Sm { x: e.sm.x, ..sm }) && bit(e.sm.x, i) == want
            &&& dst == 2 ==> e.sm == (Sm { y: e.sm.y, ..sm }) && bit(e.sm.y, i) == want
            &&& dst == 3 ==> e.sm == sm
            &&& dst == 4 ==> e.sm == (Sm { forced: e.sm.forced, ..sm }) && (e.sm.forced matches Some(w) && bit(w, i)
                == (i < 16 && want))
            &&& dst == 5 ==> e.sm == (Sm { pc: e.sm.pc, ..sm }) && bit(e.sm.pc, i) == (i < 5 && want)
            &&& dst == 6 ==> e.sm == (Sm { isr: e.sm.isr, isr_count: 0, ..sm }) && bit(e.sm.isr, i) == want
            &&& dst == 7 ==> e.sm == (Sm { osr: e.sm.osr, osr_count: 0, ..sm }) && bit(e.sm.osr, i) == want
        }),
{
    let op = encoded(5, side, 32 * dst + 8 * how + src);
    lemma_mov_decoded(sm, shared, input, n, side, dst, how, src);
    lemma_mov_value(sm, input, op, i);
    let v = sm.mov_value(op, input);
    lemma_bit_ops(v, 0xFFFF, i as u32, 0);
    lemma_bit_ops(v, 0x1F, i as u32, 0);
    lemma_masks(i as u32);
}

/// `mov pins` drives the pins from the out base up, as many as the out count
/// says, with the bits it moves.
#[verifier::rlimit(40)]
pub proof fn law_mov_drives_its_pins(
    sm: Sm,
    shared: Shared,
    input: u32,
    n: u32,
    side: int,
    how: int,
    src: int,
    p: int,
)
    requires
        0 <= side < 32,
        0 <= how < 4,
        0 <= src < 8,
        0 <= p < 32,
    ensures
        ({
            let op = encoded(5, side, 8 * how + src);
            let s = sm.side_set(shared, op);
            let e = sm.executed(shared, op, input, n);
            let j = place(p, sm.pinctrl as int % 32);
            &&& e.shared == (Shared { out: e.shared.out, ..s })
            &&& bit(e.shared.out, p) == (if j < sm.pinctrl as int / 0x10_0000 % 64 {
                mov_bit(sm, input, how, src, j)
            } else {
                bit(s.out, p)
            })
        }),
{
    let op = encoded(5, side, 8 * how + src);
    lemma_mov_decoded(sm, shared, input, n, side, 0, how, src);
    lemma_digits(sm.pinctrl);
    let base = field(sm.pinctrl, 0, 5);
    lemma_mov_value(sm, input, op, place(p, base as int));
    lemma_with_pins(
        sm.side_set(shared, op).out,
        base,
        field(sm.pinctrl, 20, 6),
        sm.mov_value(op, input),
        p,
    );
}

#[verifier::rlimit(40)]
proof fn lemma_masks(i: u32)
    requires
        i < 32,
    ensures
        bit(0xFFFF, i as int) == (i < 16),
        bit(0x1F, i as int) == (i < 5),
{
    lemma_low_mask(16, i as int);
    lemma_low_mask(5, i as int);
    lemma_digits(0);
}

} // verus!
