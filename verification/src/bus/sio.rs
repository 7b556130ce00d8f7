//! The single-cycle I/O block that both cores share: pins, the inter-core
//! mailboxes with the launch handshake, spinlocks, dividers and
//! interpolators.
use vstd::array::{spec_array_fill_for_copy_type, spec_array_update};
use vstd::prelude::*;

use crate::bits::{add32, asr, lemma_bit_ops, lemma_word_facts, shift_right_signed, signed, sub32, wadd, word};
use crate::fifo::{law_fifo_push_appends, Fifo};

verus! {

/// The thirty pins of bank 0.
pub const PIN_MASK: u32 = 0x3FFF_FFFF;

/// Entries in each mailbox.
pub const MAILBOX_DEPTH: u8 = 8;

/// Where core 1 starts: its vector table, stack and entry point.
#[derive(Clone, Copy, Debug, PartialEq, Eq, Structural)]
pub struct LaunchRequest {
    pub vtor: u32,
    pub sp: u32,
    pub entry: u32,
}

/// One core's integer divider.
#[derive(Clone, Copy, Debug, PartialEq, Eq, Structural)]
pub struct Divider {
    pub dividend: u32,
    pub divisor: u32,
    pub quotient: u32,
    pub remainder: u32,
    pub dirty: bool,
    /// Result reads since the divider was last made dirty.
    pub reads: u8,
}

/// Truncating division of two's complement numbers.
pub open spec fn signed_quotient(a: int, b: int) -> int {
    let q = abs(a) / abs(b);
    if (a < 0) == (b < 0) {
        q
    } else {
        -q
    }
}

/// The remainder that goes with it; it has the sign of the dividend.
pub open spec fn signed_remainder(a: int, b: int) -> int {
    let r = abs(a) % abs(b);
    if a < 0 {
        -r
    } else {
        r
    }
}

pub open spec fn abs(a: int) -> int {
    if a < 0 {
        -a
    } else {
        a
    }
}

impl Divider {
    pub open spec fn at_reset() -> Divider {
        Divider { dividend: 0, divisor: 0, quotient: 0, remainder: 0, dirty: false, reads: 0 }
    }

    /// The divider after it has divided its operands. Division by zero keeps
    /// the dividend as the remainder.
    pub open spec fn divided(self, is_signed: bool) -> Divider {
        let a = self.dividend;
        let b = self.divisor;
        let q = if b == 0 {
            if is_signed && a >= 0x8000_0000 {
                1
            } else {
                0xFFFF_FFFF
            }
        } else if is_signed {
            word(signed_quotient(signed(a), signed(b)))
        } else {
            a / b
        };
        let r = if b == 0 {
            a
        } else if is_signed {
            word(signed_remainder(signed(a), signed(b)))
        } else {
            a % b
        };
        Divider { quotient: q, remainder: r, dirty: true, reads: 0, ..self }
    }

    pub open spec fn word_at(self, offset: u32) -> u32 {
        if offset == 0x060 || offset == 0x068 {
            self.dividend
        } else if offset == 0x064 || offset == 0x06C {
            self.divisor
        } else if offset == 0x070 {
            self.quotient
        } else if offset == 0x074 {
            self.remainder
        } else if offset == 0x078 {
            if self.dirty {
                3
            } else {
                1
            }
        } else {
            0
        }
    }

    /// The second result read makes the divider clean.
    pub open spec fn after_read(self, offset: u32) -> Divider {
        if (offset == 0x070 || offset == 0x074) && self.dirty {
            if self.reads >= 1 {
                Divider { dirty: false, reads: 0, ..self }
            } else {
                Divider { reads: 1, ..self }
            }
        } else {
            self
        }
    }

    pub open spec fn after_write(self, offset: u32, val: u32) -> Divider {
        if offset == 0x060 {
            (Divider { dividend: val, ..self }).divided(false)
        } else if offset == 0x064 {
            (Divider { divisor: val, ..self }).divided(false)
        } else if offset == 0x068 {
            (Divider { dividend: val, ..self }).divided(true)
        } else if offset == 0x06C {
            (Divider { divisor: val, ..self }).divided(true)
        } else if offset == 0x070 {
            Divider { quotient: val, dirty: true, reads: 0, ..self }
        } else if offset == 0x074 {
            Divider { remainder: val, dirty: true, reads: 0, ..self }
        } else {
            self
        }
    }

    pub fn new() -> (d: Divider)
        ensures
            d == Divider::at_reset(),
    {
        Divider { dividend: 0, divisor: 0, quotient: 0, remainder: 0, dirty: false, reads: 0 }
    }

    fn magnitude(x: u32) -> (out: u32)
        ensures
            out == abs(signed(x)),
    {
        if x >= 0x8000_0000 {
            0xFFFF_FFFF - x + 1
        } else {
            x
        }
    }

    fn negate(x: u32) -> (out: u32)
        ensures
            out == word(-(x as int)),
    {
        reveal(crate::bits::wsub);
        sub32(0u32, x)
    }

    fn divide(&mut self, is_signed: bool)
        ensures
            *final(self) == old(self).divided(is_signed),
    {
        let a: u32 = self.dividend;
        let b: u32 = self.divisor;
        if b == 0 {
            self.quotient = if is_signed && a >= 0x8000_0000 {
                1
            } else {
                0xFFFF_FFFF
            };
            self.remainder = a;
        } else if is_signed {
            let ma: u32 = Divider::magnitude(a);
            let mb: u32 = Divider::magnitude(b);
            let q: u32 = ma / mb;
            let r: u32 = ma % mb;
            self.quotient = if (a >= 0x8000_0000) == (b >= 0x8000_0000) {
                q
            } else {
                Divider::negate(q)
            };
            self.remainder = if a >= 0x8000_0000 {
                Divider::negate(r)
            } else {
                r
            };
        } else {
            self.quotient = a / b;
            self.remainder = a % b;
        }
        self.dirty = true;
        self.reads = 0;
    }

    fn read32(&mut self, offset: u32) -> (out: u32)
        ensures
            out == old(self).word_at(offset),
            *final(self) == old(self).after_read(offset),
    {
        let out: u32 = match offset {
            0x060 | 0x068 => self.dividend,
            0x064 | 0x06C => self.divisor,
            0x070 => self.quotient,
            0x074 => self.remainder,
            0x078 => if self.dirty {
                3
            } else {
                1
            },
            _ => 0,
        };
        if (offset == 0x070 || offset == 0x074) && self.dirty {
            if self.reads >= 1 {
                self.dirty = false;
                self.reads = 0;
            } else {
                self.reads = 1;
            }
        }
        out
    }

    fn write32(&mut self, offset: u32, val: u32)
        ensures
            *final(self) == old(self).after_write(offset, val),
    {
        match offset {
            0x060 => {
                self.dividend = val;
                self.divide(false);
            },
            0x064 => {
                self.divisor = val;
                self.divide(false);
            },
            0x068 => {
                self.dividend = val;
                self.divide(true);
            },
            0x06C => {
                self.divisor = val;
                self.divide(true);
            },
            0x070 => {
                self.quotient = val;
                self.dirty = true;
                self.reads = 0;
            },
            0x074 => {
                self.remainder = val;
                self.dirty = true;
                self.reads = 0;
            },
            _ => {},
        }
    }
}

/// The unsigned results satisfy the division identity, with a remainder below
/// the divisor.
pub proof fn law_unsigned_division(d: Divider)
    requires
        d.divisor != 0,
    ensures
        d.divided(false).quotient * d.divisor + d.divided(false).remainder == d.dividend,
        d.divided(false).remainder < d.divisor,
{
    let a = d.dividend as int;
    let b = d.divisor as int;
    vstd::arithmetic::div_mod::lemma_fundamental_div_mod(a, b);
    assert((a / b) * b == b * (a / b)) by (nonlinear_arith);
}

/// The signed results satisfy it too, with a remainder smaller than the
/// divisor in magnitude; only the smallest number divided by minus one leaves
/// the range.
pub proof fn law_signed_division(d: Divider)
    requires
        d.divisor != 0,
        !(d.dividend == 0x8000_0000 && d.divisor == 0xFFFF_FFFF),
    ensures
        signed(d.divided(true).quotient) * signed(d.divisor) + signed(d.divided(true).remainder) == signed(
            d.dividend,
        ),
        abs(signed(d.divided(true).remainder)) < abs(signed(d.divisor)),
{
    let a = signed(d.dividend);
    let b = signed(d.divisor);
    let q = abs(a) / abs(b);
    let r = abs(a) % abs(b);
    vstd::arithmetic::div_mod::lemma_fundamental_div_mod(abs(a), abs(b));
    assert(0 <= q <= abs(a)) by (nonlinear_arith)
        requires
            q == abs(a) / abs(b),
            abs(b) >= 1,
            abs(a) >= 0,
    ;
    assert(q == 0x8000_0000 ==> abs(b) == 1) by (nonlinear_arith)
        requires
            abs(a) == abs(b) * q + r,
            0 <= r,
            abs(b) >= 1,
            abs(a) <= 0x8000_0000,
    ;
    assert(0 <= r < abs(b));
    let sq = signed_quotient(a, b);
    let sr = signed_remainder(a, b);
    assert(signed(d.divided(true).quotient) == sq);
    assert(signed(d.divided(true).remainder) == sr);
    assert(sq * b + sr == a) by (nonlinear_arith)
        requires
            abs(a) == abs(b) * q + r,
            sq == (if (a < 0) == (b < 0) {
                q
            } else {
                -q
            }),
            sr == (if a < 0 {
                -r
            } else {
                r
            }),
            abs(a) == (if a < 0 {
                -a
            } else {
                a
            }),
            abs(b) == (if b < 0 {
                -b
            } else {
                b
            }),
    ;
}

/// One interpolator: sixteen words, of which the first five and the two lane
/// controls take part in its results.
#[derive(Clone, Copy, Debug, PartialEq, Eq)]
pub struct Interp {
    pub regs: [u32; 16],
}

/// The bits from `lsb` to `msb`; none when they are the wrong way round.
pub open spec fn field_mask(lsb: u32, msb: u32) -> u32 {
    if msb < lsb {
        0
    } else {
        (0xFFFF_FFFFu32 >> ((31 - msb) as u32)) & (0xFFFF_FFFFu32 << lsb)
    }
}

impl Interp {
    pub open spec fn at_reset() -> Interp {
        Interp { regs: spec_array_fill_for_copy_type::<u32, 16>(0) }
    }

    /// A lane's accumulator, shifted, masked and sign-extended as the lane's
    /// control word says.
    #[verifier::opaque]
    pub open spec fn lane_value(self, lane: int) -> u32 {
        let ctrl = self.regs[11 + lane];
        let shift = ctrl & 0x1F;
        let lsb = (ctrl >> 5) & 0x1F;
        let msb = (ctrl >> 10) & 0x1F;
        let is_signed = ctrl & 0x8000 != 0;
        let accum = self.regs[0];
        let shifted = if is_signed {
            asr(accum, shift)
        } else {
            accum >> shift
        };
        let masked = shifted & field_mask(lsb, msb);
        if is_signed && msb >= lsb && (masked >> msb) & 1 == 1 {
            masked | (0xFFFF_FFFFu32 << msb)
        } else {
            masked
        }
    }

    /// A lane's result. With clamping on, lane 0 is held between its two
    /// bases, compared as signed numbers; otherwise the base is added.
    pub open spec fn lane_result(self, lane: int, can_clamp: bool) -> u32 {
        let v = self.lane_value(lane);
        if can_clamp && lane == 0 && self.regs[11] & 0x0040_0000 != 0 {
            if signed(v) < signed(self.regs[2]) {
                self.regs[2]
            } else if signed(v) > signed(self.regs[3]) {
                self.regs[3]
            } else {
                v
            }
        } else {
            wadd(v, self.regs[2 + lane])
        }
    }

    pub open spec fn full_result(self, can_clamp: bool) -> u32 {
        wadd(wadd(self.lane_result(0, can_clamp), self.lane_result(1, can_clamp)), self.regs[4])
    }

    /// Index 5 to 7 pop and 8 to 10 peek: lane 0, lane 1, full. A pop leaves
    /// the accumulators alone.
    pub open spec fn word_at(self, index: int, can_clamp: bool) -> u32 {
        if index == 5 || index == 8 {
            self.lane_result(0, can_clamp)
        } else if index == 6 || index == 9 {
            self.lane_result(1, can_clamp)
        } else if index == 7 || index == 10 {
            self.full_result(can_clamp)
        } else {
            self.regs[index]
        }
    }

    pub fn new() -> (i: Interp)
        ensures
            i == Interp::at_reset(),
    {
        Interp { regs: [0;16] }
    }

    fn value(&self, lane: usize) -> (out: u32)
        requires
            lane < 2,
        ensures
            out == self.lane_value(lane as int),
    {
        reveal(Interp::lane_value);
        let ctrl: u32 = self.regs[11 + lane];
        proof {
            lemma_control_fields(ctrl);
        }
        let shift: u32 = ctrl & 0x1F;
        let lsb: u32 = (ctrl >> 5) & 0x1F;
        let msb: u32 = (ctrl >> 10) & 0x1F;
        let is_signed = ctrl & 0x8000 != 0;
        let accum: u32 = self.regs[0];
        let shifted: u32 = if is_signed {
            shift_right_signed(accum, shift)
        } else {
            accum >> shift
        };
        let mask: u32 = if msb < lsb {
            0
        } else {
            (0xFFFF_FFFFu32 >> (31 - msb)) & (0xFFFF_FFFFu32 << lsb)
        };
        let masked: u32 = shifted & mask;
        if is_signed && msb >= lsb && (masked >> msb) & 1 == 1 {
            masked | (0xFFFF_FFFFu32 << msb)
        } else {
            masked
        }
    }

    /// Two's complement order on words.
    fn below(a: u32, b: u32) -> (out: bool)
        ensures
            out == (signed(a) < signed(b)),
    {
        if (a >= 0x8000_0000) == (b >= 0x8000_0000) {
            a < b
        } else {
            a >= 0x8000_0000
        }
    }

    fn result(&self, lane: usize, can_clamp: bool) -> (out: u32)
        requires
            lane < 2,
        ensures
            out == self.lane_result(lane as int, can_clamp),
    {
        let v: u32 = self.value(lane);
        if can_clamp && lane == 0 && self.regs[11] & 0x0040_0000 != 0 {
            if Interp::below(v, self.regs[2]) {
                self.regs[2]
            } else if Interp::below(self.regs[3], v) {
                self.regs[3]
            } else {
                v
            }
        } else {
            add32(v, self.regs[2 + lane])
        }
    }

    fn read(&self, index: usize, can_clamp: bool) -> (out: u32)
        requires
            index < 16,
        ensures
            out == self.word_at(index as int, can_clamp),
    {
        match index {
            5 | 8 => self.result(0, can_clamp),
            6 | 9 => self.result(1, can_clamp),
            7 | 10 => add32(add32(self.result(0, can_clamp), self.result(1, can_clamp)), self.regs[4]),
            _ => self.regs[index],
        }
    }
}

proof fn lemma_control_fields(ctrl: u32)
    ensures
        ctrl & 0x1F < 32,
        (ctrl >> 5) & 0x1F < 32,
        (ctrl >> 10) & 0x1F < 32,
{
    lemma_word_facts(ctrl, 0, 0);
}

#[derive(Clone, Copy, Debug, PartialEq, Eq)]
pub struct Sio {
    pub gpio_out: u32,
    pub gpio_oe: u32,
    /// Mailboxes, by the core that reads them.
    pub fifo_to: [Fifo; 2],
    /// Sticky write-overflow and read-underflow flags, by core.
    pub wof: [bool; 2],
    pub roe: [bool; 2],
    /// One bit for each claimed lock.
    pub spinlocks: u32,
    pub dividers: [Divider; 2],
    pub interp0: [Interp; 2],
    pub interp1: [Interp; 2],
    /// While armed, core 0's mailbox writes drive the launch handshake.
    pub handshake_armed: bool,
    pub handshake_step: u8,
    pub handshake_vtor: u32,
    pub handshake_sp: u32,
    pub pending_launch: Option<LaunchRequest>,
    /// The core whose mailbox last received a word.
    pub pending_fifo_event: Option<usize>,
}

/// Core selectors other than zero mean core 1.
pub open spec fn core_index(core: usize) -> int {
    if core == 0 {
        0
    } else {
        1
    }
}

impl Sio {
    pub open spec fn at_reset() -> Sio {
        Sio {
            gpio_out: 0,
            gpio_oe: 0,
            fifo_to: spec_array_fill_for_copy_type::<Fifo, 2>(Fifo::empty()),
            wof: spec_array_fill_for_copy_type::<bool, 2>(false),
            roe: spec_array_fill_for_copy_type::<bool, 2>(false),
            spinlocks: 0,
            dividers: spec_array_fill_for_copy_type::<Divider, 2>(Divider::at_reset()),
            interp0: spec_array_fill_for_copy_type::<Interp, 2>(Interp::at_reset()),
            interp1: spec_array_fill_for_copy_type::<Interp, 2>(Interp::at_reset()),
            handshake_armed: true,
            handshake_step: 0,
            handshake_vtor: 0,
            handshake_sp: 0,
            pending_launch: None,
            pending_fifo_event: None,
        }
    }

    /// The next step of the launch handshake: two zeros, a one, then the
    /// vector table, stack pointer and entry point, none of which may be
    /// zero. A word that does not fit starts over.
    pub open spec fn next_step(step: u8, val: u32) -> u8 {
        if step == 0 && val == 0 {
            1
        } else if step == 1 && val == 0 {
            2
        } else if step == 2 && val == 1 {
            3
        } else if step == 3 && val != 0 {
            4
        } else if step == 4 && val != 0 {
            5
        } else {
            0
        }
    }

    /// One handshake word from core 0: the machine steps, the last word asks
    /// for the launch, and every word is echoed.
    pub open spec fn after_handshake(self, val: u32) -> Sio {
        Sio {
            handshake_step: Sio::next_step(self.handshake_step, val),
            handshake_vtor: if self.handshake_step == 3 {
                val
            } else {
                self.handshake_vtor
            },
            handshake_sp: if self.handshake_step == 4 {
                val
            } else {
                self.handshake_sp
            },
            pending_launch: if self.handshake_step == 5 && val != 0 {
                Some(
                    LaunchRequest { vtor: self.handshake_vtor, sp: self.handshake_sp, entry: val },
                )
            } else {
                self.pending_launch
            },
            fifo_to: spec_array_update(
                self.fifo_to,
                0,
                self.fifo_to[0].pushed(val, MAILBOX_DEPTH),
            ),
            pending_fifo_event: Some(0),
            ..self
        }
    }

    /// A mailbox write by `core`: to the handshake while core 0 drives it,
    /// else to the other core. A full mailbox drops the word and flags it.
    pub open spec fn after_fifo_write(self, val: u32, core: usize) -> Sio {
        let me = core_index(core);
        let to = 1 - me;
        if me == 0 && self.handshake_armed {
            self.after_handshake(val)
        } else if self.fifo_to[to].count >= MAILBOX_DEPTH {
            Sio { wof: spec_array_update(self.wof, me, true), ..self }
        } else {
            Sio {
                fifo_to: spec_array_update(
                    self.fifo_to,
                    to,
                    self.fifo_to[to].pushed(val, MAILBOX_DEPTH),
                ),
                pending_fifo_event: Some(to as usize),
                ..self
            }
        }
    }

    pub open spec fn fifo_status(self, core: usize) -> u32 {
        let me = core_index(core);
        (if self.fifo_to[me].count > 0 { 0x1u32 } else { 0u32 })
            | (if self.fifo_to[1 - me].count < MAILBOX_DEPTH { 0x2u32 } else { 0u32 })
            | (if self.wof[me] { 0x4u32 } else { 0u32 }) | (if self.roe[me] { 0x8u32 } else { 0u32 })
    }

    pub open spec fn is_lock(offset: u32) -> bool {
        0x100 <= offset < 0x180 && offset % 4 == 0
    }

    pub open spec fn lock_bit(offset: u32) -> u32 {
        1u32 << (((offset - 0x100) / 4) as u32)
    }

    pub open spec fn is_divider(offset: u32) -> bool {
        0x060 <= offset < 0x07C
    }

    pub open spec fn is_interp(offset: u32) -> bool {
        0x080 <= offset < 0x100 && offset % 4 == 0
    }

    pub open spec fn word_at(self, offset: u32, core: usize) -> u32 {
        let me = core_index(core);
        if offset == 0x000 {
            me as u32
        } else if offset == 0x010 || offset == 0x014 || offset == 0x018 || offset == 0x01C {
            self.gpio_out
        } else if offset == 0x020 || offset == 0x024 || offset == 0x028 || offset == 0x02C {
            self.gpio_oe
        } else if offset == 0x050 {
            self.fifo_status(core)
        } else if offset == 0x058 {
            self.fifo_to[me].front()
        } else if offset == 0x05C {
            self.spinlocks
        } else if Sio::is_divider(offset) {
            self.dividers[me].word_at(offset)
        } else if Sio::is_interp(offset) {
            if offset < 0x0C0 {
                self.interp0[me].word_at((offset - 0x080) / 4, false)
            } else {
                self.interp1[me].word_at((offset - 0x0C0) / 4, true)
            }
        } else if Sio::is_lock(offset) {
            if self.spinlocks & Sio::lock_bit(offset) == 0 {
                Sio::lock_bit(offset)
            } else {
                0
            }
        } else {
            0
        }
    }

    /// Reads with an effect: a mailbox pop, a divider result, a lock claim.
    pub open spec fn after_read(self, offset: u32, core: usize) -> Sio {
        let me = core_index(core);
        if offset == 0x058 {
            if self.fifo_to[me].count == 0 {
                Sio { roe: spec_array_update(self.roe, me, true), ..self }
            } else {
                Sio {
                    fifo_to: spec_array_update(self.fifo_to, me, self.fifo_to[me].dropped(1)),
                    ..self
                }
            }
        } else if Sio::is_divider(offset) {
            Sio {
                dividers: spec_array_update(self.dividers, me, self.dividers[me].after_read(offset)),
                ..self
            }
        } else if Sio::is_lock(offset) {
            Sio { spinlocks: self.spinlocks | Sio::lock_bit(offset), ..self }
        } else {
            self
        }
    }

    pub open spec fn after_write(self, offset: u32, val: u32, core: usize) -> Sio {
        let me = core_index(core);
        if offset == 0x010 {
            Sio { gpio_out: val & PIN_MASK, ..self }
        } else if offset == 0x014 {
            Sio { gpio_out: (self.gpio_out | val) & PIN_MASK, ..self }
        } else if offset == 0x018 {
            Sio { gpio_out: (self.gpio_out & !val) & PIN_MASK, ..self }
        } else if offset == 0x01C {
            Sio { gpio_out: (self.gpio_out ^ val) & PIN_MASK, ..self }
        } else if offset == 0x020 {
            Sio { gpio_oe: val & PIN_MASK, ..self }
        } else if offset == 0x024 {
            Sio { gpio_oe: (self.gpio_oe | val) & PIN_MASK, ..self }
        } else if offset == 0x028 {
            Sio { gpio_oe: (self.gpio_oe & !val) & PIN_MASK, ..self }
        } else if offset == 0x02C {
            Sio { gpio_oe: (self.gpio_oe ^ val) & PIN_MASK, ..self }
        } else if offset == 0x050 {
            Sio {
                wof: spec_array_update(self.wof, me, self.wof[me] && val & 0x4 == 0),
                roe: spec_array_update(self.roe, me, self.roe[me] && val & 0x8 == 0),
                ..self
            }
        } else if offset == 0x054 {
            self.after_fifo_write(val, core)
        } else if Sio::is_divider(offset) {
            Sio {
                dividers: spec_array_update(
                    self.dividers,
                    me,
                    self.dividers[me].after_write(offset, val),
                ),
                ..self
            }
        } else if Sio::is_interp(offset) {
            if offset < 0x0C0 {
                Sio {
                    interp0: spec_array_update(
                        self.interp0,
                        me,
                        Interp {
                            regs: spec_array_update(self.interp0[me].regs, (offset - 0x080) / 4, val),
                        },
                    ),
                    ..self
                }
            } else {
                Sio {
                    interp1: spec_array_update(
                        self.interp1,
                        me,
                        Interp {
                            regs: spec_array_update(self.interp1[me].regs, (offset - 0x0C0) / 4, val),
                        },
                    ),
                    ..self
                }
            }
        } else if Sio::is_lock(offset) {
            Sio { spinlocks: self.spinlocks & !Sio::lock_bit(offset), ..self }
        } else {
            self
        }
    }

    /// Arming and disarming both take the handshake back to its first step;
    /// disarming also forgets a launch that nobody took.
    pub open spec fn with_armed(self, armed: bool) -> Sio {
        Sio {
            handshake_armed: armed,
            handshake_step: 0,
            pending_launch: if armed {
                self.pending_launch
            } else {
                None
            },
            ..self
        }
    }

    pub fn new() -> (s: Sio)
        ensures
            s == Sio::at_reset(),
    {
        Sio {
            gpio_out: 0,
            gpio_oe: 0,
            fifo_to: [Fifo::new();2],
            wof: [false;2],
            roe: [false;2],
            spinlocks: 0,
            dividers: [Divider::new();2],
            interp0: [Interp::new();2],
            interp1: [Interp::new();2],
            handshake_armed: true,
            handshake_step: 0,
            handshake_vtor: 0,
            handshake_sp: 0,
            pending_launch: None,
            pending_fifo_event: None,
        }
    }

    pub fn reset(&mut self)
        ensures
            *final(self) == Sio::at_reset(),
    {
        *self = Sio::new();
    }

    pub fn gpio_out_masked(&self) -> (out: u32)
        ensures
            out == self.gpio_out & PIN_MASK,
    {
        self.gpio_out & PIN_MASK
    }

    pub fn gpio_oe_masked(&self) -> (out: u32)
        ensures
            out == self.gpio_oe & PIN_MASK,
    {
        self.gpio_oe & PIN_MASK
    }

    pub fn handshake_seq(&self) -> (step: u8)
        ensures
            step == self.handshake_step,
    {
        self.handshake_step
    }

    pub fn is_handshake_armed(&self) -> (out: bool)
        ensures
            out == self.handshake_armed,
    {
        self.handshake_armed
    }

    pub fn set_handshake_armed(&mut self, armed: bool)
        ensures
            *final(self) == old(self).with_armed(armed),
    {
        self.handshake_armed = armed;
        self.handshake_step = 0;
        if !armed {
            self.pending_launch = None;
        }
    }

    pub fn take_pending_launch(&mut self) -> (out: Option<LaunchRequest>)
        ensures
            out == old(self).pending_launch,
            *final(self) == (Sio { pending_launch: None, ..*old(self) }),
    {
        let out = self.pending_launch;
        self.pending_launch = None;
        out
    }

    /// Takes the note of which core's mailbox last received a word.
    pub fn take_fifo_event(&mut self) -> (out: Option<usize>)
        ensures
            out == old(self).pending_fifo_event,
            *final(self) == (Sio { pending_fifo_event: None, ..*old(self) }),
    {
        let out = self.pending_fifo_event;
        self.pending_fifo_event = None;
        out
    }

    fn handshake(&mut self, val: u32)
        ensures
            *final(self) == old(self).after_handshake(val),
    {
        let step: u8 = self.handshake_step;
        if step == 3 {
            self.handshake_vtor = val;
        }
        if step == 4 {
            self.handshake_sp = val;
        }
        if step == 5 && val != 0 {
            self.pending_launch = Some(
                LaunchRequest { vtor: self.handshake_vtor, sp: self.handshake_sp, entry: val },
            );
        }
        self.handshake_step = match step {
            0 => if val == 0 {
                1
            } else {
                0
            },
            1 => if val == 0 {
                2
            } else {
                0
            },
            2 => if val == 1 {
                3
            } else {
                0
            },
            3 => if val != 0 {
                4
            } else {
                0
            },
            4 => if val != 0 {
                5
            } else {
                0
            },
            _ => 0,
        };
        self.fifo_to[0].push(val, MAILBOX_DEPTH);
        self.pending_fifo_event = Some(0);
    }

    fn write_fifo(&mut self, val: u32, core: usize)
        ensures
            *final(self) == old(self).after_fifo_write(val, core),
    {
        let me: usize = if core == 0 {
            0
        } else {
            1
        };
        if me == 0 && self.handshake_armed {
            self.handshake(val);
            return;
        }
        let to: usize = 1 - me;
        if self.fifo_to[to].count >= MAILBOX_DEPTH {
            self.wof[me] = true;
        } else {
            self.fifo_to[to].push(val, MAILBOX_DEPTH);
            self.pending_fifo_event = Some(to);
        }
    }

    fn read_status(&self, me: usize) -> (out: u32)
        requires
            me < 2,
        ensures
            out == self.fifo_status(me),
    {
        (if self.fifo_to[me].count > 0 { 0x1u32 } else { 0u32 })
            | (if self.fifo_to[1 - me].count < MAILBOX_DEPTH { 0x2u32 } else { 0u32 })
            | (if self.wof[me] { 0x4u32 } else { 0u32 }) | (if self.roe[me] { 0x8u32 } else { 0u32 })
    }

    fn read_fifo(&mut self, me: usize) -> (out: u32)
        requires
            me < 2,
        ensures
            out == old(self).word_at(0x058, me),
            *final(self) == old(self).after_read(0x058, me),
    {
        let out: u32 = self.fifo_to[me].peek();
        if self.fifo_to[me].is_empty() {
            self.roe[me] = true;
        } else {
            self.fifo_to[me].drop_front(1);
        }
        out
    }

    pub fn read32(&mut self, offset: u32, core: usize) -> (out: u32)
        ensures
            out == old(self).word_at(offset, core),
            *final(self) == old(self).after_read(offset, core),
    {
        let me: usize = if core == 0 {
            0
        } else {
            1
        };
        if offset == 0x000 {
            me as u32
        } else if offset == 0x010 || offset == 0x014 || offset == 0x018 || offset == 0x01C {
            self.gpio_out
        } else if offset == 0x020 || offset == 0x024 || offset == 0x028 || offset == 0x02C {
            self.gpio_oe
        } else if offset == 0x050 {
            self.read_status(me)
        } else if offset == 0x058 {
            self.read_fifo(me)
        } else if offset == 0x05C {
            self.spinlocks
        } else if 0x060 <= offset && offset < 0x07C {
            self.dividers[me].read32(offset)
        } else if 0x080 <= offset && offset < 0x100 && offset % 4 == 0 {
            if offset < 0x0C0 {
                self.interp0[me].read(((offset - 0x080) / 4) as usize, false)
            } else {
                self.interp1[me].read(((offset - 0x0C0) / 4) as usize, true)
            }
        } else if 0x100 <= offset && offset < 0x180 && offset % 4 == 0 {
            let lock: u32 = 1u32 << ((offset - 0x100) / 4);
            let free = self.spinlocks & lock == 0;
            self.spinlocks = self.spinlocks | lock;
            if free {
                lock
            } else {
                0
            }
        } else {
            0
        }
    }

    fn write_interp(&mut self, offset: u32, val: u32, me: usize)
        requires
            me < 2,
            Sio::is_interp(offset),
        ensures
            *final(self) == old(self).after_write(offset, val, me),
    {
        if offset < 0x0C0 {
            self.interp0[me].regs[((offset - 0x080) / 4) as usize] = val;
        } else {
            self.interp1[me].regs[((offset - 0x0C0) / 4) as usize] = val;
        }
    }

    pub fn write32(&mut self, offset: u32, val: u32, core: usize)
        ensures
            *final(self) == old(self).after_write(offset, val, core),
    {
        let me: usize = if core == 0 {
            0
        } else {
            1
        };
        if offset == 0x010 {
            self.gpio_out = val & PIN_MASK;
        } else if offset == 0x014 {
            self.gpio_out = (self.gpio_out | val) & PIN_MASK;
        } else if offset == 0x018 {
            self.gpio_out = (self.gpio_out & !val) & PIN_MASK;
        } else if offset == 0x01C {
            self.gpio_out = (self.gpio_out ^ val) & PIN_MASK;
        } else if offset == 0x020 {
            self.gpio_oe = val & PIN_MASK;
        } else if offset == 0x024 {
            self.gpio_oe = (self.gpio_oe | val) & PIN_MASK;
        } else if offset == 0x028 {
            self.gpio_oe = (self.gpio_oe & !val) & PIN_MASK;
        } else if offset == 0x02C {
            self.gpio_oe = (self.gpio_oe ^ val) & PIN_MASK;
        } else if offset == 0x050 {
            self.wof[me] = self.wof[me] && val & 0x4 == 0;
            self.roe[me] = self.roe[me] && val & 0x8 == 0;
        } else if offset == 0x054 {
            self.write_fifo(val, core);
        } else if 0x060 <= offset && offset < 0x07C {
            self.dividers[me].write32(offset, val);
        } else if 0x080 <= offset && offset < 0x100 && offset % 4 == 0 {
            self.write_interp(offset, val, me);
        } else if 0x100 <= offset && offset < 0x180 && offset % 4 == 0 {
            let lock: u32 = 1u32 << ((offset - 0x100) / 4);
            self.spinlocks = self.spinlocks & !lock;
        }
    }
}

impl Default for Sio {
    fn default() -> (s: Sio)
        ensures
            s == Sio::at_reset(),
    {
        Sio::new()
    }
}

/// A spinlock is exclusive: whoever reads it free holds it, every later read
/// by either core returns zero, and after a write by anyone it is free again.
pub proof fn law_spinlock_is_exclusive(s: Sio, offset: u32, val: u32, first: usize, second: usize)
    requires
        Sio::is_lock(offset),
    ensures
        s.word_at(offset, first) != 0 ==> s.word_at(offset, first) == Sio::lock_bit(offset),
        s.after_read(offset, first).word_at(offset, second) == 0,
        s.after_read(offset, first).after_write(offset, val, second).word_at(offset, first) == Sio::lock_bit(
            offset,
        ),
{
    let i = ((offset - 0x100) / 4) as u32;
    let l = s.spinlocks;
    lemma_lock_bit(l, i);
    lemma_lock_bit(l | (1u32 << i), i);
}

proof fn lemma_lock_bit(l: u32, i: u32)
    requires
        i < 32,
    ensures
        1u32 << i != 0,
        (l | (1u32 << i)) & (1u32 << i) != 0,
        (l & !(1u32 << i)) & (1u32 << i) == 0,
{
    lemma_bit_ops(l, 0, i, i);
    lemma_bit_ops(l | (1u32 << i), 0, i, i);
    lemma_bit_ops(l & !(1u32 << i), 0, i, i);
}

/// The full sequence from the first step reaches a launch, and what it asks
/// for is exactly the last three words. No word but the sixth, and that only
/// where it is not zero, asks for one.
pub proof fn law_handshake_launches_last_three_words(s: Sio, vtor: u32, sp: u32, entry: u32, val: u32)
    ensures
        s.handshake_armed && s.handshake_step == 0 ==> ({
            let end = s.after_handshake(0).after_handshake(0).after_handshake(1).after_handshake(
                vtor,
            ).after_handshake(sp).after_handshake(entry);
            vtor != 0 && sp != 0 && entry != 0 ==> end.pending_launch == Some(
                LaunchRequest { vtor, sp, entry },
            ) && end.handshake_step == 0
        }),
        s.after_handshake(val).pending_launch != s.pending_launch ==> s.handshake_step == 5 && val != 0,
        s.handshake_step != 4 ==> Sio::next_step(s.handshake_step, val) != 5,
        s.handshake_step == 4 ==> (Sio::next_step(s.handshake_step, val) == 5 <==> val != 0),
{
}

/// A word that does not fit the handshake takes it back to the start without
/// asking for a launch, and every handshake word comes back to core 0 while
/// there is room: it joins the end of the mailbox.
pub proof fn law_handshake_restarts_and_echoes(s: Sio, val: u32)
    requires
        s.handshake_armed,
        s.fifo_to[0].count <= MAILBOX_DEPTH,
    ensures
        Sio::next_step(s.handshake_step, val) == 0 ==> s.after_fifo_write(val, 0).handshake_step == 0,
        Sio::next_step(s.handshake_step, val) == 0 && s.handshake_step != 5
            ==> s.after_fifo_write(val, 0).pending_launch == s.pending_launch,
        s.handshake_step == 5 && val == 0 ==> s.after_fifo_write(val, 0).pending_launch == s.pending_launch,
        s.fifo_to[0].count < MAILBOX_DEPTH ==> s.after_fifo_write(val, 0).fifo_to[0].items()
            == s.fifo_to[0].items().push(val),
        s.fifo_to[0].count == 0 ==> s.after_fifo_write(val, 0).word_at(0x058, 0) == val,
        s.after_fifo_write(val, 0).pending_fifo_event == Some(0usize),
{
    law_fifo_push_appends(s.fifo_to[0], val, MAILBOX_DEPTH);
}

/// What one core sends through a mailbox with room is what the other core
/// takes from it next, when it was empty.
pub proof fn law_mailbox_delivers(s: Sio, val: u32, core: usize)
    requires
        core < 2,
        core == 1 || !s.handshake_armed,
        s.fifo_to[1 - core as int].count == 0,
    ensures
        s.after_write(0x054, val, core).word_at(0x058, (1 - core) as usize) == val,
        s.after_write(0x054, val, core).pending_fifo_event == Some((1 - core) as usize),
        s.after_write(0x054, val, core).after_read(0x058, (1 - core) as usize).fifo_to[1 - core as int].count == 0,
{
}

} // verus!
