//! The nested vectored interrupt controller of one core.
use vstd::array::{spec_array_fill_for_copy_type, spec_array_update};
use vstd::prelude::*;

use crate::bits::{bit, lemma_set_clear_bit, lemma_word_facts};
use crate::irq::{IRQ_COUNT, IRQ_MASK};

verus! {

/// The core implements two priority bits, at the top of the byte.
pub const PRIORITY_MASK: u8 = 0xC0;

#[derive(Clone, Copy, Debug, PartialEq, Eq)]
pub struct Nvic {
    pub pending: u32,
    pub enabled: u32,
    pub priority: [u8; 32],
}

impl Nvic {
    pub open spec fn at_reset() -> Nvic {
        Nvic { pending: 0, enabled: 0, priority: spec_array_fill_for_copy_type::<u8, 32>(0) }
    }

    /// Line `i` is latched and not masked.
    pub open spec fn asserts(self, i: int) -> bool {
        0 <= i < 32 && bit(self.pending & self.enabled, i)
    }

    /// Line `i` comes no later than line `j` in dispatch order: a lower
    /// priority value first, then the lower line number.
    pub open spec fn precedes(self, i: int, j: int) -> bool {
        self.priority[i] < self.priority[j] || (self.priority[i] == self.priority[j] && i <= j)
    }

    /// Line `i` is the one to dispatch.
    pub open spec fn is_best(self, i: int) -> bool {
        self.asserts(i) && forall|j: int| #[trigger]
            self.asserts(j) ==> self.precedes(i, j)
    }

    pub open spec fn with_pending(self, irq: u8) -> Nvic {
        if irq < IRQ_COUNT {
            Nvic { pending: self.pending | (1u32 << (irq as u32)), ..self }
        } else {
            self
        }
    }

    pub open spec fn without_pending(self, irq: u8) -> Nvic {
        if irq < IRQ_COUNT {
            Nvic { pending: self.pending & !(1u32 << (irq as u32)), ..self }
        } else {
            self
        }
    }

    pub open spec fn with_enabled(self, irq: u8) -> Nvic {
        if irq < IRQ_COUNT {
            Nvic { enabled: self.enabled | (1u32 << (irq as u32)), ..self }
        } else {
            self
        }
    }

    pub open spec fn without_enabled(self, irq: u8) -> Nvic {
        if irq < IRQ_COUNT {
            Nvic { enabled: self.enabled & !(1u32 << (irq as u32)), ..self }
        } else {
            self
        }
    }

    pub open spec fn with_priority(self, irq: u8, prio: u8) -> Nvic {
        if irq < 32 {
            Nvic { priority: spec_array_update(self.priority, irq as int, prio & PRIORITY_MASK), ..self }
        } else {
            self
        }
    }

    /// Four neighbouring priority bytes as one little-endian word.
    pub open spec fn priority_word(self, n: int) -> u32 {
        (self.priority[4 * n] + 0x100 * self.priority[4 * n + 1] + 0x1_0000 * self.priority[4 * n + 2]
            + 0x100_0000 * self.priority[4 * n + 3]) as u32
    }

    /// What a word read at a byte offset into the controller's window
    /// returns.
    pub open spec fn word_at(self, offset: u32) -> u32 {
        if offset == 0x100 || offset == 0x180 {
            self.enabled
        } else if offset == 0x200 || offset == 0x280 {
            self.pending
        } else if 0x400 <= offset < 0x420 {
            self.priority_word((offset - 0x400) / 4)
        } else {
            0
        }
    }

    /// Four neighbouring priority bytes replaced by the bytes of `val`.
    pub open spec fn with_priority_word(self, n: int, val: u32) -> Nvic {
        self.with_priority((4 * n) as u8, (val % 0x100) as u8).with_priority(
            (4 * n + 1) as u8,
            (val / 0x100 % 0x100) as u8,
        ).with_priority((4 * n + 2) as u8, (val / 0x1_0000 % 0x100) as u8).with_priority(
            (4 * n + 3) as u8,
            (val / 0x100_0000) as u8,
        )
    }

    /// The controller after a word write at a byte offset into its window.
    pub open spec fn after_write(self, offset: u32, val: u32) -> Nvic {
        if offset == 0x100 {
            Nvic { enabled: self.enabled | (val & IRQ_MASK), ..self }
        } else if offset == 0x180 {
            Nvic { enabled: self.enabled & !val, ..self }
        } else if offset == 0x200 {
            Nvic { pending: self.pending | (val & IRQ_MASK), ..self }
        } else if offset == 0x280 {
            Nvic { pending: self.pending & !val, ..self }
        } else if 0x400 <= offset < 0x420 {
            self.with_priority_word((offset - 0x400) / 4, val)
        } else {
            self
        }
    }

    pub fn new() -> (n: Nvic)
        ensures
            n == Nvic::at_reset(),
    {
        Nvic { pending: 0, enabled: 0, priority: [0;32] }
    }

    pub fn set_pending(&mut self, irq: u8)
        ensures
            *final(self) == old(self).with_pending(irq),
    {
        if (irq as u32) < IRQ_COUNT {
            self.pending = self.pending | (1u32 << (irq as u32));
        }
    }

    pub fn clear_pending(&mut self, irq: u8)
        ensures
            *final(self) == old(self).without_pending(irq),
    {
        if (irq as u32) < IRQ_COUNT {
            self.pending = self.pending & !(1u32 << (irq as u32));
        }
    }

    pub fn set_enabled(&mut self, irq: u8)
        ensures
            *final(self) == old(self).with_enabled(irq),
    {
        if (irq as u32) < IRQ_COUNT {
            self.enabled = self.enabled | (1u32 << (irq as u32));
        }
    }

    pub fn clear_enabled(&mut self, irq: u8)
        ensures
            *final(self) == old(self).without_enabled(irq),
    {
        if (irq as u32) < IRQ_COUNT {
            self.enabled = self.enabled & !(1u32 << (irq as u32));
        }
    }

    pub fn is_pending(&self, irq: u8) -> (out: bool)
        ensures
            out == (irq < IRQ_COUNT && bit(self.pending, irq as int)),
    {
        (irq as u32) < IRQ_COUNT && (self.pending >> (irq as u32)) & 1 == 1
    }

    pub fn is_enabled(&self, irq: u8) -> (out: bool)
        ensures
            out == (irq < IRQ_COUNT && bit(self.enabled, irq as int)),
    {
        (irq as u32) < IRQ_COUNT && (self.enabled >> (irq as u32)) & 1 == 1
    }

    pub fn set_priority(&mut self, irq: u8, prio: u8)
        ensures
            *final(self) == old(self).with_priority(irq, prio),
    {
        if irq < 32 {
            self.priority[irq as usize] = prio & PRIORITY_MASK;
        }
    }

    /// The stored priority; lines past the last read as zero.
    pub fn get_priority(&self, irq: u8) -> (out: u8)
        ensures
            out == (if irq < 32 {
                self.priority[irq as int]
            } else {
                0
            }),
    {
        if irq < 32 {
            self.priority[irq as usize]
        } else {
            0
        }
    }

    pub fn pending_and_enabled(&self) -> (out: u32)
        ensures
            out == self.pending & self.enabled,
    {
        self.pending & self.enabled
    }

    /// The line to dispatch, with its priority: the latched, unmasked line
    /// with the lowest priority value, and among equals the lowest number.
    pub fn highest_priority_pending(&self) -> (out: Option<(u8, u8)>)
        ensures
            out is None <==> forall|i: int| !self.asserts(i),
            out matches Some((irq, prio)) ==> self.is_best(irq as int) && prio == self.priority[irq as int],
    {
        let live: u32 = self.pending & self.enabled;
        let mut best: Option<(u8, u8)> = None;
        let mut i: u8 = 0;
        while i < 32
            invariant
                i <= 32,
                live == self.pending & self.enabled,
                best is None ==> forall|j: int| 0 <= j < i ==> !self.asserts(j),
                best matches Some((irq, prio)) ==> irq < i && self.asserts(irq as int) && prio
                    == self.priority[irq as int] && forall|j: int|
                    0 <= j < i && self.asserts(j) ==> self.precedes(irq as int, j),
            decreases 32 - i,
        {
            if (live >> (i as u32)) & 1 == 1 {
                let p: u8 = self.priority[i as usize];
                assert(self.asserts(i as int));
                match best {
                    None => {
                        best = Some((i, p));
                    },
                    Some((_, bp)) => {
                        if p < bp {
                            best = Some((i, p));
                        }
                    },
                }
            }
            i += 1;
        }
        best
    }

    pub fn read32(&self, offset: u32) -> (out: u32)
        ensures
            out == self.word_at(offset),
    {
        if offset == 0x100 || offset == 0x180 {
            self.enabled
        } else if offset == 0x200 || offset == 0x280 {
            self.pending
        } else if 0x400 <= offset && offset < 0x420 {
            let n: usize = ((offset - 0x400) / 4) as usize;
            self.priority[4 * n] as u32 + 0x100 * (self.priority[4 * n + 1] as u32) + 0x1_0000 * (
            self.priority[4 * n + 2] as u32) + 0x100_0000 * (self.priority[4 * n + 3] as u32)
        } else {
            0
        }
    }

    pub fn write32(&mut self, offset: u32, val: u32)
        ensures
            *final(self) == old(self).after_write(offset, val),
    {
        if offset == 0x100 {
            self.enabled = self.enabled | (val & IRQ_MASK);
        } else if offset == 0x180 {
            self.enabled = self.enabled & !val;
        } else if offset == 0x200 {
            self.pending = self.pending | (val & IRQ_MASK);
        } else if offset == 0x280 {
            self.pending = self.pending & !val;
        } else if 0x400 <= offset && offset < 0x420 {
            let n: u8 = ((offset - 0x400) / 4) as u8;
            self.set_priority(4 * n, (val % 0x100) as u8);
            self.set_priority(4 * n + 1, (val / 0x100 % 0x100) as u8);
            self.set_priority(4 * n + 2, (val / 0x1_0000 % 0x100) as u8);
            self.set_priority(4 * n + 3, (val / 0x100_0000) as u8);
        }
    }
}

/// Two lines that are each the one to dispatch are the same line.
pub proof fn law_dispatch_choice_is_unique(n: Nvic, i: int, j: int)
    requires
        n.is_best(i),
        n.is_best(j),
    ensures
        i == j,
{
    assert(n.asserts(i) && n.asserts(j));
}

/// Latching a line and acknowledging it again leaves the controller as if the
/// line had never been latched, and neither touches any other line.
pub proof fn law_pending_set_clear(n: Nvic, irq: u8, other: u8)
    requires
        irq < IRQ_COUNT,
        other < IRQ_COUNT,
    ensures
        bit(n.with_pending(irq).pending, irq as int),
        !bit(n.without_pending(irq).pending, irq as int),
        other != irq ==> bit(n.with_pending(irq).pending, other as int) == bit(n.pending, other as int),
        other != irq ==> bit(n.without_pending(irq).pending, other as int) == bit(n.pending, other as int),
        n.with_pending(irq).without_pending(irq) == n.without_pending(irq),
        n.with_pending(irq).enabled == n.enabled && n.with_pending(irq).priority == n.priority,
{
    lemma_set_clear_bit(n.pending, irq as u32, irq as u32);
    lemma_set_clear_bit(n.pending, irq as u32, other as u32);
    let m: u32 = 1u32 << (irq as u32);
    let p: u32 = n.pending;
    lemma_word_facts(p, 0, m);
}

/// Where any line asks, one comes before all others.
pub proof fn law_some_line_is_first(v: Nvic, any: int)
    requires
        v.asserts(any),
    ensures
        exists|i: int| v.is_best(i),
{
    let i = lemma_first_below(v, 32, any);
    assert(v.is_best(i));
}

/// The line that comes first among those below `n`.
proof fn lemma_first_below(v: Nvic, n: int, any: int) -> (i: int)
    requires
        v.asserts(any),
        any < n <= 32,
    ensures
        v.asserts(i),
        i < n,
        forall|j: int| j < n && #[trigger] v.asserts(j) ==> v.precedes(i, j),
    decreases n,
{
    let last = n - 1;
    if exists|k: int| k < last && v.asserts(k) {
        let k = choose|k: int| k < last && v.asserts(k);
        let i = lemma_first_below(v, last, k);
        if v.asserts(last) && v.priority[last] < v.priority[i] {
            last
        } else {
            i
        }
    } else {
        any
    }
}

} // verus!
