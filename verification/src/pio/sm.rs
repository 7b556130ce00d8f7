//! One programmable I/O state machine and the instructions it runs.
use vstd::prelude::*;

use crate::bits::{bit, lemma_bit_ops, sub32, test_bit, wsub};
use crate::fifo::Fifo;

verus! {

#[derive(Clone, Copy, Debug, PartialEq, Eq)]
pub struct Sm {
    pub clkdiv: u32,
    pub execctrl: u32,
    pub shiftctrl: u32,
    pub pinctrl: u32,
    pub pc: u32,
    pub x: u32,
    pub y: u32,
    pub isr: u32,
    pub osr: u32,
    /// Bits shifted in since the input register was last emptied.
    pub isr_count: u32,
    /// Bits shifted out since the output register was last filled.
    pub osr_count: u32,
    pub delay: u32,
    /// An instruction to run before the next one in memory.
    pub forced: Option<u32>,
    /// An `irq wait` has raised its flag and waits for it to drop.
    pub irq_waiting: bool,
    /// System clocks towards the next machine clock, in 256ths.
    pub clock: u32,
    pub enabled: bool,
    pub tx: Fifo,
    pub rx: Fifo,
}

/// What the four machines of a block share: the flags and the pads.
#[derive(Clone, Copy, Debug, PartialEq, Eq, Structural)]
pub struct Shared {
    pub irq: u32,
    pub out: u32,
    pub oe: u32,
}

/// What one instruction leaves behind. A stalled instruction runs again; one
/// that jumped has set the program counter itself.
#[derive(Clone, Copy, Debug, PartialEq, Eq)]
pub struct Executed {
    pub sm: Sm,
    pub shared: Shared,
    pub stalled: bool,
    pub jumped: bool,
}

/// The `width` bits of `x` from bit `lo` up, for a width below 32.
pub open spec fn field(x: u32, lo: u32, width: u32) -> u32 {
    (x >> lo) & low_mask(width)
}

pub fn get_field(x: u32, lo: u32, width: u32) -> (out: u32)
    requires
        lo < 32,
        width < 32,
    ensures
        out == field(x, lo, width),
{
    (x >> lo) & mask_of(width)
}

/// The lowest `n` bits.
pub open spec fn low_mask(n: u32) -> u32 {
    if n >= 32 {
        0xFFFF_FFFF
    } else {
        ((1u32 << n) - 1) as u32
    }
}

pub fn mask_of(n: u32) -> (out: u32)
    ensures
        out == low_mask(n),
{
    if n >= 32 {
        0xFFFF_FFFF
    } else {
        proof {
            lemma_one_shifted(n);
        }
        (1u32 << n) - 1
    }
}

proof fn lemma_one_shifted(n: u32)
    requires
        n < 32,
    ensures
        1u32 << n >= 1,
{
    lemma_bit_ops(0, 0, 0, n);
}

/// Rotation to the left.
pub open spec fn rotl(x: u32, n: u32) -> u32 {
    if n == 0 {
        x
    } else {
        (x << n) | (x >> ((32 - n) as u32))
    }
}

/// Rotation to the right.
pub open spec fn rotr(x: u32, n: u32) -> u32 {
    if n == 0 {
        x
    } else {
        (x >> n) | (x << ((32 - n) as u32))
    }
}

fn rotate_left(x: u32, n: u32) -> (out: u32)
    requires
        n < 32,
    ensures
        out == rotl(x, n),
{
    if n == 0 {
        x
    } else {
        (x << n) | (x >> (32 - n))
    }
}

fn rotate_right(x: u32, n: u32) -> (out: u32)
    requires
        n < 32,
    ensures
        out == rotr(x, n),
{
    if n == 0 {
        x
    } else {
        (x >> n) | (x << (32 - n))
    }
}

/// `pins` with the `count` pins from `base` on, wrapping at 32, replaced by
/// the low bits of `val`.
pub open spec fn with_pins(pins: u32, base: u32, count: u32, val: u32) -> u32 {
    (pins & !rotl(low_mask(count), base)) | rotl(val & low_mask(count), base)
}

fn set_pins(pins: u32, base: u32, count: u32, val: u32) -> (out: u32)
    requires
        base < 32,
    ensures
        out == with_pins(pins, base, count, val),
{
    let mask: u32 = mask_of(count);
    (pins & !rotate_left(mask, base)) | rotate_left(val & mask, base)
}

/// The bits of a word in the opposite order.
pub open spec fn reversed(v: u32) -> u32 {
    let a = ((v >> 1) & 0x5555_5555) | ((v & 0x5555_5555) << 1);
    let b = ((a >> 2) & 0x3333_3333) | ((a & 0x3333_3333) << 2);
    let c = ((b >> 4) & 0x0F0F_0F0F) | ((b & 0x0F0F_0F0F) << 4);
    let d = ((c >> 8) & 0x00FF_00FF) | ((c & 0x00FF_00FF) << 8);
    (d >> 16) | (d << 16)
}

fn reverse(v: u32) -> (out: u32)
    ensures
        out == reversed(v),
{
    let a: u32 = ((v >> 1) & 0x5555_5555) | ((v & 0x5555_5555) << 1);
    let b: u32 = ((a >> 2) & 0x3333_3333) | ((a & 0x3333_3333) << 2);
    let c: u32 = ((b >> 4) & 0x0F0F_0F0F) | ((b & 0x0F0F_0F0F) << 4);
    let d: u32 = ((c >> 8) & 0x00FF_00FF) | ((c & 0x00FF_00FF) << 8);
    (d >> 16) | (d << 16)
}

/// Bit `j` of the reversed word is bit `31 - j` of the word.
pub proof fn law_reversal(v: u32, j: u32)
    requires
        j < 32,
    ensures
        bit(reversed(v), j as int) == bit(v, 31 - j),
{
    let a = ((v >> 1) & 0x5555_5555) | ((v & 0x5555_5555) << 1);
    let b = ((a >> 2) & 0x3333_3333) | ((a & 0x3333_3333) << 2);
    let c = ((b >> 4) & 0x0F0F_0F0F) | ((b & 0x0F0F_0F0F) << 4);
    let d = ((c >> 8) & 0x00FF_00FF) | ((c & 0x00FF_00FF) << 8);
    let k = (31 - j) as u32;
    assert((((d >> 16) | (d << 16)) >> j) & 1 == (v >> k) & 1) by (bit_vector)
        requires
            j < 32,
            k == 31 - j,
            a == ((v >> 1) & 0x5555_5555) | ((v & 0x5555_5555) << 1),
            b == ((a >> 2) & 0x3333_3333) | ((a & 0x3333_3333) << 2),
            c == ((b >> 4) & 0x0F0F_0F0F) | ((b & 0x0F0F_0F0F) << 4),
            d == ((c >> 8) & 0x00FF_00FF) | ((c & 0x00FF_00FF) << 8),
    ;
}

/// The flag that an instruction's index field names to machine `n`: relative
/// indices add the machine's number to the low two bits.
pub open spec fn flag_index(idx: u32, n: u32) -> u32 {
    if idx & 0x10 != 0 {
        (idx & 0x4) | (((idx & 0x3) + n) % 4) as u32
    } else {
        idx & 0x7
    }
}

fn flag_of(idx: u32, n: u32) -> (out: u32)
    requires
        n < 4,
    ensures
        out == flag_index(idx, n),
        out < 8,
{
    if idx & 0x10 != 0 {
        let low: u32 = ((idx & 0x3) as u64 + n as u64) as u32 % 4;
        proof {
            lemma_flag_bounds(idx, low);
        }
        (idx & 0x4) | low
    } else {
        proof {
            lemma_flag_bounds(idx, 0);
        }
        idx & 0x7
    }
}

proof fn lemma_flag_bounds(idx: u32, low: u32)
    by (bit_vector)
    ensures
        ((1u32 << 5) - 1) as u32 == 0x1F,
        idx & 0x1F < 32,
        idx & 0x3 < 4,
        idx & 0x7 < 8,
        low < 4 ==> (idx & 0x4) | low < 8,
{
}

impl Sm {
    pub open spec fn at_reset() -> Sm {
        Sm {
            clkdiv: 0x0001_0000,
            execctrl: 0x0001_F000,
            shiftctrl: 0x000C_0000,
            pinctrl: 0x1400_0000,
            pc: 0,
            x: 0,
            y: 0,
            isr: 0,
            osr: 0,
            isr_count: 0,
            osr_count: 32,
            delay: 0,
            forced: None,
            irq_waiting: false,
            clock: 0,
            enabled: false,
            tx: Fifo::empty(),
            rx: Fifo::empty(),
        }
    }

    pub fn new() -> (sm: Sm)
        ensures
            sm == Sm::at_reset(),
    {
        Sm {
            clkdiv: 0x0001_0000,
            execctrl: 0x0001_F000,
            shiftctrl: 0x000C_0000,
            pinctrl: 0x1400_0000,
            pc: 0,
            x: 0,
            y: 0,
            isr: 0,
            osr: 0,
            isr_count: 0,
            osr_count: 32,
            delay: 0,
            forced: None,
            irq_waiting: false,
            clock: 0,
            enabled: false,
            tx: Fifo::new(),
            rx: Fifo::new(),
        }
    }

    /// Queue depths: four each, or all eight entries joined to one side.
    pub open spec fn tx_depth(self) -> u8 {
        if self.shiftctrl & 0x8000_0000 != 0 {
            0
        } else if self.shiftctrl & 0x4000_0000 != 0 {
            8
        } else {
            4
        }
    }

    pub open spec fn rx_depth(self) -> u8 {
        if self.shiftctrl & 0x8000_0000 != 0 {
            8
        } else if self.shiftctrl & 0x4000_0000 != 0 {
            0
        } else {
            4
        }
    }

    pub fn tx_room(&self) -> (out: u8)
        ensures
            out == self.tx_depth(),
    {
        if self.shiftctrl & 0x8000_0000 != 0 {
            0
        } else if self.shiftctrl & 0x4000_0000 != 0 {
            8
        } else {
            4
        }
    }

    pub fn rx_room(&self) -> (out: u8)
        ensures
            out == self.rx_depth(),
    {
        if self.shiftctrl & 0x8000_0000 != 0 {
            8
        } else if self.shiftctrl & 0x4000_0000 != 0 {
            0
        } else {
            4
        }
    }

    pub open spec fn push_threshold(self) -> u32 {
        if field(self.shiftctrl, 20, 5) == 0 {
            32
        } else {
            field(self.shiftctrl, 20, 5)
        }
    }

    pub open spec fn pull_threshold(self) -> u32 {
        if field(self.shiftctrl, 25, 5) == 0 {
            32
        } else {
            field(self.shiftctrl, 25, 5)
        }
    }

    fn push_at(&self) -> (out: u32)
        ensures
            out == self.push_threshold(),
    {
        let n: u32 = get_field(self.shiftctrl, 20, 5);
        if n == 0 {
            32
        } else {
            n
        }
    }

    fn pull_at(&self) -> (out: u32)
        ensures
            out == self.pull_threshold(),
    {
        let n: u32 = get_field(self.shiftctrl, 25, 5);
        if n == 0 {
            32
        } else {
            n
        }
    }

    /// The pins as this machine's input mapping shows them.
    pub open spec fn in_pins(self, input: u32) -> u32 {
        rotr(input, field(self.pinctrl, 15, 5))
    }

    fn read_pins(&self, input: u32) -> (out: u32)
        ensures
            out == self.in_pins(input),
    {
        proof {
            lemma_field_five(self.pinctrl, 15);
        }
        rotate_right(input, get_field(self.pinctrl, 15, 5))
    }

    /// All ones while the selected queue is below its level, else zero.
    pub open spec fn status(self) -> u32 {
        let level = if self.execctrl & 0x10 != 0 {
            self.rx.count
        } else {
            self.tx.count
        };
        if level < self.execctrl & 0xF {
            0xFFFF_FFFF
        } else {
            0
        }
    }

    fn status_word(&self) -> (out: u32)
        ensures
            out == self.status(),
    {
        let level: u8 = if self.execctrl & 0x10 != 0 {
            self.rx.count
        } else {
            self.tx.count
        };
        if (level as u32) < self.execctrl & 0xF {
            0xFFFF_FFFF
        } else {
            0
        }
    }

    /// Bits of the delay and side-set field that belong to the side-set.
    pub open spec fn side_bits(self) -> u32 {
        if field(self.pinctrl, 29, 3) > 5 {
            5
        } else {
            field(self.pinctrl, 29, 3)
        }
    }

    fn side_width(&self) -> (out: u32)
        ensures
            out == self.side_bits(),
            out <= 5,
    {
        let n: u32 = get_field(self.pinctrl, 29, 3);
        if n > 5 {
            5
        } else {
            n
        }
    }

    /// The cycles that an instruction waits after it is done.
    pub open spec fn delay_of(self, op: u32) -> u32 {
        field(op, 8, 5) & low_mask((5 - self.side_bits()) as u32)
    }

    pub fn op_delay(&self, op: u32) -> (out: u32)
        ensures
            out == self.delay_of(op),
    {
        get_field(op, 8, 5) & mask_of(5 - self.side_width())
    }

    /// The pads after an instruction's side-set. With the enable option on,
    /// the top bit says whether there is one.
    pub open spec fn side_set(self, shared: Shared, op: u32) -> Shared {
        let n = self.side_bits();
        let optional = self.execctrl & 0x4000_0000 != 0;
        let raw = field(op, 8, 5) >> ((5 - n) as u32);
        let width = if optional && n > 0 {
            (n - 1) as u32
        } else {
            n
        };
        if n == 0 || (optional && (raw >> width) & 1 == 0) {
            shared
        } else {
            let base = field(self.pinctrl, 10, 5);
            if self.execctrl & 0x2000_0000 != 0 {
                Shared { oe: with_pins(shared.oe, base, width, raw), ..shared }
            } else {
                Shared { out: with_pins(shared.out, base, width, raw), ..shared }
            }
        }
    }

    pub fn apply_side_set(&self, shared: Shared, op: u32) -> (out: Shared)
        ensures
            out == self.side_set(shared, op),
    {
        let n: u32 = self.side_width();
        let optional = self.execctrl & 0x4000_0000 != 0;
        let raw: u32 = get_field(op, 8, 5) >> (5 - n);
        let width: u32 = if optional && n > 0 {
            n - 1
        } else {
            n
        };
        if n == 0 || (optional && (raw >> width) & 1 == 0) {
            return shared;
        }
        proof {
            lemma_field_five(self.pinctrl, 10);
        }
        let base: u32 = get_field(self.pinctrl, 10, 5);
        if self.execctrl & 0x2000_0000 != 0 {
            Shared { oe: set_pins(shared.oe, base, width, raw), ..shared }
        } else {
            Shared { out: set_pins(shared.out, base, width, raw), ..shared }
        }
    }

    pub open spec fn done(self, shared: Shared) -> Executed {
        Executed { sm: self, shared, stalled: false, jumped: false }
    }

    pub open spec fn stall(self, shared: Shared) -> Executed {
        Executed { sm: self, shared, stalled: true, jumped: false }
    }

    pub open spec fn jump_to(self, shared: Shared, addr: u32) -> Executed {
        Executed { sm: Sm { pc: addr & 0x1F, ..self }, shared, stalled: false, jumped: true }
    }

    /// `jmp`: eight conditions, two of which count a scratch register down.
    pub open spec fn jmp(self, shared: Shared, op: u32, input: u32) -> Executed {
        let cond = field(op, 5, 3);
        let next = if cond == 2 {
            Sm { x: wsub(self.x, 1), ..self }
        } else if cond == 4 {
            Sm { y: wsub(self.y, 1), ..self }
        } else {
            self
        };
        let taken = if cond == 0 {
            true
        } else if cond == 1 {
            self.x == 0
        } else if cond == 2 {
            self.x != 0
        } else if cond == 3 {
            self.y == 0
        } else if cond == 4 {
            self.y != 0
        } else if cond == 5 {
            self.x != self.y
        } else if cond == 6 {
            bit(input, field(self.execctrl, 24, 5) as int)
        } else {
            self.osr_count < self.pull_threshold()
        };
        if taken {
            next.jump_to(shared, op)
        } else {
            next.done(shared)
        }
    }

    fn run_jmp(self, shared: Shared, op: u32, input: u32) -> (out: Executed)
        ensures
            out == self.jmp(shared, op, input),
    {
        let cond: u32 = get_field(op, 5, 3);
        let mut sm = self;
        let taken = match cond {
            0 => true,
            1 => self.x == 0,
            2 => {
                sm.x = sub32(self.x, 1);
                self.x != 0
            },
            3 => self.y == 0,
            4 => {
                sm.y = sub32(self.y, 1);
                self.y != 0
            },
            5 => self.x != self.y,
            6 => {
                proof {
                    lemma_field_five(self.execctrl, 24);
                }
                test_bit(input, get_field(self.execctrl, 24, 5))
            },
            _ => self.osr_count < self.pull_at(),
        };
        if taken {
            sm.pc = op & 0x1F;
        }
        Executed { sm, shared, stalled: false, jumped: taken }
    }

    /// `wait` on a pin, a mapped pin or a flag. Waiting for a flag to rise
    /// also takes it down.
    pub open spec fn wait(self, shared: Shared, op: u32, input: u32, n: u32) -> Executed {
        let want = op & 0x80 != 0;
        let src = field(op, 5, 2);
        let idx = op & 0x1F;
        let flag = 1u32 << flag_index(idx, n);
        let level = if src == 0 {
            bit(input, idx as int)
        } else if src == 1 {
            bit(self.in_pins(input), idx as int)
        } else if src == 2 {
            shared.irq & flag != 0
        } else {
            want
        };
        if level != want {
            self.stall(shared)
        } else if src == 2 && want {
            self.done(Shared { irq: shared.irq & !flag, ..shared })
        } else {
            self.done(shared)
        }
    }

    fn run_wait(self, shared: Shared, op: u32, input: u32, n: u32) -> (out: Executed)
        requires
            n < 4,
        ensures
            out == self.wait(shared, op, input, n),
    {
        let want = op & 0x80 != 0;
        let src: u32 = get_field(op, 5, 2);
        let idx: u32 = op & 0x1F;
        proof {
            lemma_low_five(op);
        }
        let flag: u32 = 1u32 << flag_of(idx, n);
        let level = match src {
            0 => test_bit(input, idx),
            1 => test_bit(self.read_pins(input), idx),
            2 => shared.irq & flag != 0,
            _ => want,
        };
        let mut next = shared;
        if level == want && src == 2 && want {
            next.irq = shared.irq & !flag;
        }
        Executed { sm: self, shared: next, stalled: level != want, jumped: false }
    }

    /// The bit count of a shift: zero stands for 32.
    pub open spec fn shift_count(op: u32) -> u32 {
        if op & 0x1F == 0 {
            32
        } else {
            op & 0x1F
        }
    }

    fn count_of(op: u32) -> (out: u32)
        ensures
            out == Sm::shift_count(op),
            1 <= out <= 32,
    {
        proof {
            lemma_low_five(op);
        }
        if op & 0x1F == 0 {
            32
        } else {
            op & 0x1F
        }
    }

    /// The source operand of `in`.
    pub open spec fn in_source(self, src: u32, input: u32) -> u32 {
        if src == 0 {
            self.in_pins(input)
        } else if src == 1 {
            self.x
        } else if src == 2 {
            self.y
        } else if src == 6 {
            self.isr
        } else if src == 7 {
            self.osr
        } else {
            0
        }
    }

    fn read_in_source(&self, src: u32, input: u32) -> (out: u32)
        ensures
            out == self.in_source(src, input),
    {
        match src {
            0 => self.read_pins(input),
            1 => self.x,
            2 => self.y,
            6 => self.isr,
            7 => self.osr,
            _ => 0,
        }
    }

    /// `n` bits of `val` shifted into the input register, from the left end
    /// when the register shifts right.
    pub open spec fn shifted_in(self, val: u32, n: u32) -> u32 {
        if n >= 32 {
            val
        } else if self.shiftctrl & 0x0004_0000 != 0 {
            (self.isr >> n) | (val << ((32 - n) as u32))
        } else {
            (self.isr << n) | (val & low_mask(n))
        }
    }

    fn shift_in(&self, val: u32, n: u32) -> (out: u32)
        requires
            1 <= n <= 32,
        ensures
            out == self.shifted_in(val, n),
    {
        if n >= 32 {
            val
        } else if self.shiftctrl & 0x0004_0000 != 0 {
            (self.isr >> n) | (val << (32 - n))
        } else {
            (self.isr << n) | (val & mask_of(n))
        }
    }

    pub open spec fn capped(count: u32, n: u32) -> u32 {
        if count + n > 32 {
            32
        } else {
            (count + n) as u32
        }
    }

    fn add_capped(count: u32, n: u32) -> (out: u32)
        requires
            n <= 32,
        ensures
            out == Sm::capped(count, n),
    {
        if count > 32 || count + n > 32 {
            32
        } else {
            count + n
        }
    }

    /// `in`: shifts, and with automatic push hands a full register over;
    /// where the queue has no room for it the instruction waits.
    pub open spec fn shift_input(self, shared: Shared, op: u32, input: u32) -> Executed {
        let n = Sm::shift_count(op);
        let isr = self.shifted_in(self.in_source(field(op, 5, 3), input), n);
        let count = Sm::capped(self.isr_count, n);
        if self.shiftctrl & 0x0001_0000 != 0 && count >= self.push_threshold() {
            if self.rx.count >= self.rx_depth() {
                self.stall(shared)
            } else {
                (Sm { isr: 0, isr_count: 0, rx: self.rx.pushed(isr, self.rx_depth()), ..self }).done(
                    shared,
                )
            }
        } else {
            (Sm { isr, isr_count: count, ..self }).done(shared)
        }
    }

    fn run_in(self, shared: Shared, op: u32, input: u32) -> (out: Executed)
        ensures
            out == self.shift_input(shared, op, input),
    {
        let n: u32 = Sm::count_of(op);
        let isr: u32 = self.shift_in(self.read_in_source(get_field(op, 5, 3), input), n);
        let count: u32 = Sm::add_capped(self.isr_count, n);
        let mut sm = self;
        let mut stalled = false;
        if self.shiftctrl & 0x0001_0000 != 0 && count >= self.push_at() {
            if self.rx.count >= self.rx_room() {
                stalled = true;
            } else {
                sm.rx.push(isr, self.rx_room());
                sm.isr = 0;
                sm.isr_count = 0;
            }
        } else {
            sm.isr = isr;
            sm.isr_count = count;
        }
        Executed { sm, shared, stalled, jumped: false }
    }

    /// The output register with automatic pull done, where it is due.
    pub open spec fn refilled(self) -> Sm {
        if self.shiftctrl & 0x0002_0000 != 0 && self.osr_count >= self.pull_threshold() && self.tx.count > 0 {
            Sm { osr: self.tx.front(), osr_count: 0, tx: self.tx.dropped(1), ..self }
        } else {
            self
        }
    }

    /// Automatic pull is due and there is nothing to pull.
    pub open spec fn starved(self) -> bool {
        self.shiftctrl & 0x0002_0000 != 0 && self.osr_count >= self.pull_threshold() && self.tx.count == 0
    }

    pub open spec fn out_bits(self, n: u32) -> u32 {
        if self.shiftctrl & 0x0008_0000 != 0 {
            self.osr & low_mask(n)
        } else if n >= 32 {
            self.osr
        } else {
            self.osr >> ((32 - n) as u32)
        }
    }

    pub open spec fn shifted_out(self, n: u32) -> Sm {
        let osr = if n >= 32 {
            0
        } else if self.shiftctrl & 0x0008_0000 != 0 {
            self.osr >> n
        } else {
            self.osr << n
        };
        Sm { osr, osr_count: Sm::capped(self.osr_count, n), ..self }
    }

    /// Where `out` puts its bits.
    pub open spec fn out_to(self, shared: Shared, dst: u32, data: u32, n: u32) -> Executed {
        let base = field(self.pinctrl, 0, 5);
        let count = field(self.pinctrl, 20, 6);
        if dst == 0 {
            self.done(Shared { out: with_pins(shared.out, base, count, data), ..shared })
        } else if dst == 1 {
            (Sm { x: data, ..self }).done(shared)
        } else if dst == 2 {
            (Sm { y: data, ..self }).done(shared)
        } else if dst == 4 {
            self.done(Shared { oe: with_pins(shared.oe, base, count, data), ..shared })
        } else if dst == 5 {
            self.jump_to(shared, data)
        } else if dst == 6 {
            (Sm { isr: data, isr_count: n, ..self }).done(shared)
        } else if dst == 7 {
            (Sm { forced: Some(data & 0xFFFF), ..self }).done(shared)
        } else {
            self.done(shared)
        }
    }

    pub open spec fn shift_output(self, shared: Shared, op: u32) -> Executed {
        if self.starved() {
            self.stall(shared)
        } else {
            let n = Sm::shift_count(op);
            let full = self.refilled();
            full.shifted_out(n).out_to(shared, field(op, 5, 3), full.out_bits(n), n)
        }
    }

    fn run_out_to(self, shared: Shared, dst: u32, data: u32, n: u32) -> (out: Executed)
        ensures
            out == self.out_to(shared, dst, data, n),
    {
        let mut sm = self;
        let mut next = shared;
        proof {
            lemma_field_five(self.pinctrl, 0);
        }
        let base: u32 = get_field(self.pinctrl, 0, 5);
        let count: u32 = get_field(self.pinctrl, 20, 6);
        match dst {
            0 => {
                next.out = set_pins(shared.out, base, count, data);
            },
            1 => {
                sm.x = data;
            },
            2 => {
                sm.y = data;
            },
            4 => {
                next.oe = set_pins(shared.oe, base, count, data);
            },
            5 => {
                sm.pc = data & 0x1F;
            },
            6 => {
                sm.isr = data;
                sm.isr_count = n;
            },
            7 => {
                sm.forced = Some(data & 0xFFFF);
            },
            _ => {},
        }
        Executed { sm, shared: next, stalled: false, jumped: dst == 5 }
    }

    fn run_out(self, shared: Shared, op: u32) -> (out: Executed)
        ensures
            out == self.shift_output(shared, op),
    {
        let n: u32 = Sm::count_of(op);
        let mut sm = self;
        if self.shiftctrl & 0x0002_0000 != 0 && self.osr_count >= self.pull_at() {
            if self.tx.count == 0 {
                return Executed { sm: self, shared, stalled: true, jumped: false };
            }
            sm.osr = self.tx.peek();
            sm.osr_count = 0;
            sm.tx.drop_front(1);
        }
        let right = sm.shiftctrl & 0x0008_0000 != 0;
        let data: u32 = if right {
            sm.osr & mask_of(n)
        } else if n >= 32 {
            sm.osr
        } else {
            sm.osr >> (32 - n)
        };
        sm.osr = if n >= 32 {
            0
        } else if right {
            sm.osr >> n
        } else {
            sm.osr << n
        };
        sm.osr_count = Sm::add_capped(sm.osr_count, n);
        sm.run_out_to(shared, get_field(op, 5, 3), data, n)
    }

    /// `push` and `pull`, conditional and blocking or not. A pull that does
    /// not block takes the scratch register in place of a missing word.
    pub open spec fn push_pull(self, shared: Shared, op: u32) -> Executed {
        let conditional = op & 0x40 != 0;
        let block = op & 0x20 != 0;
        if op & 0x80 == 0 {
            if conditional && self.isr_count < self.push_threshold() {
                self.done(shared)
            } else if self.rx.count >= self.rx_depth() && block {
                self.stall(shared)
            } else {
                (Sm { isr: 0, isr_count: 0, rx: self.rx.pushed(self.isr, self.rx_depth()), ..self }).done(
                    shared,
                )
            }
        } else if conditional && self.osr_count < self.pull_threshold() {
            self.done(shared)
        } else if self.tx.count > 0 {
            (Sm { osr: self.tx.front(), osr_count: 0, tx: self.tx.dropped(1), ..self }).done(shared)
        } else if block {
            self.stall(shared)
        } else {
            (Sm { osr: self.x, osr_count: 0, ..self }).done(shared)
        }
    }

    fn run_push_pull(self, shared: Shared, op: u32) -> (out: Executed)
        ensures
            out == self.push_pull(shared, op),
    {
        let conditional = op & 0x40 != 0;
        let block = op & 0x20 != 0;
        let mut sm = self;
        let mut stalled = false;
        if op & 0x80 == 0 {
            if conditional && self.isr_count < self.push_at() {
            } else if self.rx.count >= self.rx_room() && block {
                stalled = true;
            } else {
                sm.rx.push(self.isr, self.rx_room());
                sm.isr = 0;
                sm.isr_count = 0;
            }
        } else if conditional && self.osr_count < self.pull_at() {
        } else if self.tx.count > 0 {
            sm.osr = self.tx.peek();
            sm.osr_count = 0;
            sm.tx.drop_front(1);
        } else if block {
            stalled = true;
        } else {
            sm.osr = self.x;
            sm.osr_count = 0;
        }
        Executed { sm, shared, stalled, jumped: false }
    }

    /// The operand of `mov`, inverted or reversed as the instruction asks.
    #[verifier::opaque]
    pub open spec fn mov_value(self, op: u32, input: u32) -> u32 {
        let src = op & 0x7;
        let v = if src == 5 {
            self.status()
        } else {
            self.in_source(src, input)
        };
        let how = field(op, 3, 2);
        if how == 1 {
            !v
        } else if how == 2 {
            reversed(v)
        } else {
            v
        }
    }

    pub open spec fn mov(self, shared: Shared, op: u32, input: u32) -> Executed {
        let v = self.mov_value(op, input);
        let dst = field(op, 5, 3);
        if dst == 0 {
            self.done(
                Shared {
                    out: with_pins(
                        shared.out,
                        field(self.pinctrl, 0, 5),
                        field(self.pinctrl, 20, 6),
                        v,
                    ),
                    ..shared
                },
            )
        } else if dst == 1 {
            (Sm { x: v, ..self }).done(shared)
        } else if dst == 2 {
            (Sm { y: v, ..self }).done(shared)
        } else if dst == 4 {
            (Sm { forced: Some(v & 0xFFFF), ..self }).done(shared)
        } else if dst == 5 {
            self.jump_to(shared, v)
        } else if dst == 6 {
            (Sm { isr: v, isr_count: 0, ..self }).done(shared)
        } else if dst == 7 {
            (Sm { osr: v, osr_count: 0, ..self }).done(shared)
        } else {
            self.done(shared)
        }
    }

    fn run_mov(self, shared: Shared, op: u32, input: u32) -> (out: Executed)
        ensures
            out == self.mov(shared, op, input),
    {
        reveal(Sm::mov_value);
        let src: u32 = op & 0x7;
        let raw: u32 = if src == 5 {
            self.status_word()
        } else {
            self.read_in_source(src, input)
        };
        let v: u32 = match get_field(op, 3, 2) {
            1 => !raw,
            2 => reverse(raw),
            _ => raw,
        };
        let dst: u32 = get_field(op, 5, 3);
        let mut sm = self;
        let mut next = shared;
        match dst {
            0 => {
                proof {
                    lemma_field_five(self.pinctrl, 0);
                }
                next.out = set_pins(
                    shared.out,
                    get_field(self.pinctrl, 0, 5),
                    get_field(self.pinctrl, 20, 6),
                    v,
                );
            },
            1 => {
                sm.x = v;
            },
            2 => {
                sm.y = v;
            },
            4 => {
                sm.forced = Some(v & 0xFFFF);
            },
            5 => {
                sm.pc = v & 0x1F;
            },
            6 => {
                sm.isr = v;
                sm.isr_count = 0;
            },
            7 => {
                sm.osr = v;
                sm.osr_count = 0;
            },
            _ => {},
        }
        Executed { sm, shared: next, stalled: false, jumped: dst == 5 }
    }

    /// `irq`: clears a flag, raises it, or raises it and waits for it to be
    /// taken down.
    pub open spec fn irq(self, shared: Shared, op: u32, n: u32) -> Executed {
        let flag = 1u32 << flag_index(op & 0x1F, n);
        if op & 0x40 != 0 {
            self.done(Shared { irq: shared.irq & !flag, ..shared })
        } else if self.irq_waiting {
            if shared.irq & flag != 0 {
                self.stall(shared)
            } else {
                (Sm { irq_waiting: false, ..self }).done(shared)
            }
        } else if op & 0x20 != 0 {
            (Sm { irq_waiting: true, ..self }).stall(Shared { irq: shared.irq | flag, ..shared })
        } else {
            self.done(Shared { irq: shared.irq | flag, ..shared })
        }
    }

    fn run_irq(self, shared: Shared, op: u32, n: u32) -> (out: Executed)
        requires
            n < 4,
        ensures
            out == self.irq(shared, op, n),
    {
        let flag: u32 = 1u32 << flag_of(op & 0x1F, n);
        let mut sm = self;
        let mut next = shared;
        let mut stalled = false;
        if op & 0x40 != 0 {
            next.irq = shared.irq & !flag;
        } else if self.irq_waiting {
            if shared.irq & flag != 0 {
                stalled = true;
            } else {
                sm.irq_waiting = false;
            }
        } else {
            next.irq = shared.irq | flag;
            if op & 0x20 != 0 {
                sm.irq_waiting = true;
                stalled = true;
            }
        }
        Executed { sm, shared: next, stalled, jumped: false }
    }

    /// `set`: five bits of immediate data.
    pub open spec fn set(self, shared: Shared, op: u32) -> Executed {
        let dst = field(op, 5, 3);
        let base = field(self.pinctrl, 5, 5);
        let count = field(self.pinctrl, 26, 3);
        let data = op & 0x1F;
        if dst == 0 {
            self.done(Shared { out: with_pins(shared.out, base, count, data), ..shared })
        } else if dst == 1 {
            (Sm { x: data, ..self }).done(shared)
        } else if dst == 2 {
            (Sm { y: data, ..self }).done(shared)
        } else if dst == 4 {
            self.done(Shared { oe: with_pins(shared.oe, base, count, data), ..shared })
        } else {
            self.done(shared)
        }
    }

    fn run_set(self, shared: Shared, op: u32) -> (out: Executed)
        ensures
            out == self.set(shared, op),
    {
        let mut sm = self;
        let mut next = shared;
        let data: u32 = op & 0x1F;
        proof {
            lemma_field_five(self.pinctrl, 5);
        }
        let base: u32 = get_field(self.pinctrl, 5, 5);
        let count: u32 = get_field(self.pinctrl, 26, 3);
        match get_field(op, 5, 3) {
            0 => {
                next.out = set_pins(shared.out, base, count, data);
            },
            1 => {
                sm.x = data;
            },
            2 => {
                sm.y = data;
            },
            4 => {
                next.oe = set_pins(shared.oe, base, count, data);
            },
            _ => {},
        }
        Executed { sm, shared: next, stalled: false, jumped: false }
    }

    /// One instruction of machine `n`: the side-set first, whether or not the
    /// rest has to wait.
    #[verifier::opaque]
    pub open spec fn executed(self, shared: Shared, op: u32, input: u32, n: u32) -> Executed {
        let shared = self.side_set(shared, op);
        let code = field(op, 13, 3);
        if code == 0 {
            self.jmp(shared, op, input)
        } else if code == 1 {
            self.wait(shared, op, input, n)
        } else if code == 2 {
            self.shift_input(shared, op, input)
        } else if code == 3 {
            self.shift_output(shared, op)
        } else if code == 4 {
            self.push_pull(shared, op)
        } else if code == 5 {
            self.mov(shared, op, input)
        } else if code == 6 {
            self.irq(shared, op, n)
        } else {
            self.set(shared, op)
        }
    }

    pub fn execute(self, shared: Shared, op: u32, input: u32, n: u32) -> (out: Executed)
        requires
            n < 4,
        ensures
            out == self.executed(shared, op, input, n),
    {
        reveal(Sm::executed);
        let shared = self.apply_side_set(shared, op);
        match get_field(op, 13, 3) {
            0 => self.run_jmp(shared, op, input),
            1 => self.run_wait(shared, op, input, n),
            2 => self.run_in(shared, op, input),
            3 => self.run_out(shared, op),
            4 => self.run_push_pull(shared, op),
            5 => self.run_mov(shared, op, input),
            6 => self.run_irq(shared, op, n),
            _ => self.run_set(shared, op),
        }
    }

    /// The program counter after an instruction that did not jump: the next
    /// word, or from the wrap point back to the wrap target.
    pub open spec fn next_pc(self) -> u32 {
        if self.pc == field(self.execctrl, 12, 5) {
            field(self.execctrl, 7, 5)
        } else {
            ((self.pc + 1) % 32) as u32
        }
    }

    /// One machine clock, `op` being the instruction in memory at the
    /// program counter. An instruction handed over to run first neither
    /// moves the program counter nor delays.
    #[verifier::opaque]
    pub open spec fn clocked(self, shared: Shared, op: u32, input: u32, n: u32) -> (Sm, Shared) {
        if self.delay > 0 {
            (Sm { delay: (self.delay - 1) as u32, ..self }, shared)
        } else if let Some(first) = self.forced {
            let e = (Sm { forced: None, ..self }).executed(shared, first, input, n);
            (
                if e.stalled {
                    Sm { forced: self.forced, ..e.sm }
                } else {
                    e.sm
                },
                e.shared,
            )
        } else {
            let e = self.executed(shared, op, input, n);
            (
                if e.stalled {
                    e.sm
                } else {
                    Sm {
                        pc: if e.jumped {
                            e.sm.pc
                        } else {
                            e.sm.next_pc()
                        },
                        delay: self.delay_of(op),
                        ..e.sm
                    }
                },
                e.shared,
            )
        }
    }

    pub fn clock(self, shared: Shared, op: u32, input: u32, n: u32) -> (out: (Sm, Shared))
        requires
            n < 4,
        ensures
            out == self.clocked(shared, op, input, n),
    {
        reveal(Sm::clocked);
        let mut sm = self;
        if self.delay > 0 {
            sm.delay = self.delay - 1;
            return (sm, shared);
        }
        match self.forced {
            Some(first) => {
                sm.forced = None;
                let e = sm.execute(shared, first, input, n);
                let mut after = e.sm;
                if e.stalled {
                    after.forced = self.forced;
                }
                (after, e.shared)
            },
            None => {
                let e = self.execute(shared, op, input, n);
                let mut after = e.sm;
                if !e.stalled {
                    if !e.jumped {
                        after.pc = if after.pc == get_field(after.execctrl, 12, 5) {
                            get_field(after.execctrl, 7, 5)
                        } else {
                            ((after.pc as u64 + 1) % 32) as u32
                        };
                    }
                    after.delay = self.op_delay(op);
                }
                (after, e.shared)
            },
        }
    }

    /// System clocks per machine clock, in 256ths; an integer part of zero
    /// stands for 65536.
    pub open spec fn divisor(self) -> u32 {
        let whole = self.clkdiv >> 16;
        if whole == 0 {
            0x0100_0000
        } else {
            (self.clkdiv >> 8) & 0x00FF_FFFF
        }
    }

    pub fn period(&self) -> (out: u32)
        ensures
            out == self.divisor(),
    {
        if self.clkdiv >> 16 == 0 {
            0x0100_0000
        } else {
            (self.clkdiv >> 8) & 0x00FF_FFFF
        }
    }
}

proof fn lemma_field_five(x: u32, lo: u32)
    requires
        lo < 32,
    ensures
        field(x, lo, 5) < 32,
{
    let y = x >> lo;
    lemma_low_five(y);
}

proof fn lemma_low_five(x: u32)
    ensures
        ((1u32 << 5) - 1) as u32 == 0x1F,
        x & 0x1F < 32,
{
    lemma_flag_bounds(x, 0);
}

} // verus!
