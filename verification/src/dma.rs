//! The twelve-channel DMA controller: its registers and the rules by which a
//! channel starts, steps and finishes. The bus moves the data.
use vstd::array::{spec_array_fill_for_copy_type, spec_array_update};
use vstd::prelude::*;

use crate::bits::{add32, aliased, apply_alias, bit, lemma_bit_ops, lemma_word_facts, wadd};
use crate::irq::{IRQ_DMA_IRQ_0, IRQ_DMA_IRQ_1};

verus! {

pub const NUM_CHANNELS: usize = 12;

pub const CTRL_EN: u32 = 0x1;
pub const CTRL_INCR_READ: u32 = 0x10;
pub const CTRL_INCR_WRITE: u32 = 0x20;
pub const CTRL_RING_SEL: u32 = 0x400;
pub const CTRL_IRQ_QUIET: u32 = 0x20_0000;
pub const CTRL_BUSY: u32 = 0x100_0000;

/// The control bits that are stored.
pub const CTRL_STORED: u32 = 0x00FF_FFFF;

/// Interrupt bits that exist, one for each channel.
pub const CHANNEL_MASK: u32 = 0xFFF;

pub const REG_INTR: u32 = 0x400;
pub const REG_INTE0: u32 = 0x404;
pub const REG_INTF0: u32 = 0x408;
pub const REG_INTS0: u32 = 0x40C;
pub const REG_INTE1: u32 = 0x414;
pub const REG_INTF1: u32 = 0x418;
pub const REG_INTS1: u32 = 0x41C;
pub const REG_TIMER0: u32 = 0x420;
pub const REG_MULTI_CHAN_TRIGGER: u32 = 0x430;
pub const REG_SNIFF_CTRL: u32 = 0x434;
pub const REG_SNIFF_DATA: u32 = 0x438;
pub const REG_CHAN_ABORT: u32 = 0x444;

#[derive(Clone, Copy, Debug, PartialEq, Eq, Structural)]
pub struct Channel {
    pub read_addr: u32,
    pub write_addr: u32,
    pub trans_count: u32,
    /// What a chain refills the count with.
    pub trans_count_reload: u32,
    pub ctrl: u32,
    pub busy: bool,
    /// How often each kind of trigger was written, armed or not.
    pub trig_ctrl: u32,
    pub trig_trans_count: u32,
    pub trig_al2_trans: u32,
    pub trig_write_addr: u32,
    pub trig_read_addr: u32,
    pub trig_multi: u32,
    pub trig_chain: u32,
    /// Which PIO1 transmit queues the write address ever named.
    pub ever_wrote_pio1_txf_mask: u32,
}

/// The bit for the PIO1 transmit queue at `addr`, if one is there.
pub open spec fn pio1_txf_bit(addr: u32) -> u32 {
    if addr == 0x5030_0010 {
        1
    } else if addr == 0x5030_0014 {
        2
    } else if addr == 0x5030_0018 {
        4
    } else if addr == 0x5030_001C {
        8
    } else {
        0
    }
}

/// The next address of a transfer: a ring of 2^`ring` bytes wraps within
/// itself, size zero means no ring.
pub open spec fn ring_next(addr: u32, ring: u32, size: u32) -> u32 {
    if ring == 0 {
        wadd(addr, size)
    } else {
        (addr & !(((1u32 << ring) - 1) as u32)) | (wadd(addr, size) & (((1u32 << ring) - 1) as u32))
    }
}

impl Channel {
    pub open spec fn at_reset() -> Channel {
        Channel {
            read_addr: 0,
            write_addr: 0,
            trans_count: 0,
            trans_count_reload: 0,
            ctrl: 0,
            busy: false,
            trig_ctrl: 0,
            trig_trans_count: 0,
            trig_al2_trans: 0,
            trig_write_addr: 0,
            trig_read_addr: 0,
            trig_multi: 0,
            trig_chain: 0,
            ever_wrote_pio1_txf_mask: 0,
        }
    }

    /// A trigger starts a channel that is enabled and has something to move.
    pub open spec fn triggered(self) -> Channel {
        Channel { busy: self.busy || (self.ctrl & CTRL_EN != 0 && self.trans_count != 0), ..self }
    }

    /// A trigger by the controller-wide trigger register.
    pub open spec fn multi_triggered(self) -> Channel {
        (Channel { trig_multi: wadd(self.trig_multi, 1), ..self }).triggered()
    }

    pub open spec fn with_write_addr(self, addr: u32) -> Channel {
        Channel {
            write_addr: addr,
            ever_wrote_pio1_txf_mask: self.ever_wrote_pio1_txf_mask | pio1_txf_bit(addr),
            ..self
        }
    }

    pub open spec fn with_count(self, n: u32) -> Channel {
        Channel { trans_count: n, trans_count_reload: n, ..self }
    }

    pub open spec fn with_ctrl(self, ctrl: u32) -> Channel {
        Channel { ctrl: ctrl & CTRL_STORED, ..self }
    }

    /// A chain refills the count, if it was ever set, and triggers.
    pub open spec fn chained(self) -> Channel {
        (Channel {
            trans_count: if self.trans_count_reload != 0 {
                self.trans_count_reload
            } else {
                self.trans_count
            },
            trig_chain: wadd(self.trig_chain, 1),
            ..self
        }).triggered()
    }

    /// Bytes per transfer.
    pub open spec fn size(self) -> u32 {
        let code = (self.ctrl >> 2) & 0x3;
        if code == 0 {
            1
        } else if code == 1 {
            2
        } else {
            4
        }
    }

    /// The transfer-request line that paces this channel.
    pub open spec fn treq(self) -> u32 {
        (self.ctrl >> 15) & 0x3F
    }

    pub open spec fn chain_to(self) -> u32 {
        (self.ctrl >> 11) & 0xF
    }

    pub open spec fn ring(self) -> u32 {
        (self.ctrl >> 6) & 0xF
    }

    /// The channel after one transfer: addresses step, the count drops, and
    /// the last transfer ends it.
    pub open spec fn stepped(self) -> Channel {
        let on_write = self.ctrl & CTRL_RING_SEL != 0;
        let left = wadd(self.trans_count, 0xFFFF_FFFF);
        Channel {
            read_addr: if self.ctrl & CTRL_INCR_READ != 0 {
                ring_next(
                    self.read_addr,
                    if on_write {
                        0
                    } else {
                        self.ring()
                    },
                    self.size(),
                )
            } else {
                self.read_addr
            },
            write_addr: if self.ctrl & CTRL_INCR_WRITE != 0 {
                ring_next(
                    self.write_addr,
                    if on_write {
                        self.ring()
                    } else {
                        0
                    },
                    self.size(),
                )
            } else {
                self.write_addr
            },
            trans_count: left,
            busy: left != 0,
            ..self
        }
    }

    /// The sixteen word registers of a channel, most of them aliases.
    pub open spec fn word_at(self, inner: u32) -> u32 {
        if inner == 0x00 || inner == 0x14 || inner == 0x28 || inner == 0x3C {
            self.read_addr
        } else if inner == 0x04 || inner == 0x18 || inner == 0x2C || inner == 0x34 {
            self.write_addr
        } else if inner == 0x08 || inner == 0x1C || inner == 0x24 || inner == 0x38 {
            self.trans_count
        } else if inner == 0x0C || inner == 0x10 || inner == 0x20 || inner == 0x30 {
            if self.busy {
                self.ctrl | CTRL_BUSY
            } else {
                self.ctrl
            }
        } else {
            0
        }
    }

    /// Five of the aliases also trigger, and each keeps its own count.
    pub open spec fn after_write(self, inner: u32, val: u32, alias: u32) -> Channel {
        if inner == 0x00 || inner == 0x14 || inner == 0x28 {
            Channel { read_addr: aliased(self.read_addr, val, alias), ..self }
        } else if inner == 0x3C {
            (Channel {
                read_addr: aliased(self.read_addr, val, alias),
                trig_read_addr: wadd(self.trig_read_addr, 1),
                ..self
            }).triggered()
        } else if inner == 0x04 || inner == 0x2C || inner == 0x34 {
            self.with_write_addr(aliased(self.write_addr, val, alias))
        } else if inner == 0x18 {
            (Channel {
                trig_write_addr: wadd(self.trig_write_addr, 1),
                ..self.with_write_addr(aliased(self.write_addr, val, alias))
            }).triggered()
        } else if inner == 0x08 || inner == 0x38 {
            self.with_count(aliased(self.trans_count, val, alias))
        } else if inner == 0x1C {
            (Channel {
                trig_trans_count: wadd(self.trig_trans_count, 1),
                ..self.with_count(aliased(self.trans_count, val, alias))
            }).triggered()
        } else if inner == 0x24 {
            (Channel {
                trig_al2_trans: wadd(self.trig_al2_trans, 1),
                ..self.with_count(aliased(self.trans_count, val, alias))
            }).triggered()
        } else if inner == 0x10 || inner == 0x20 || inner == 0x30 {
            self.with_ctrl(aliased(self.ctrl, val, alias))
        } else if inner == 0x0C {
            (Channel {
                trig_ctrl: wadd(self.trig_ctrl, 1),
                ..self.with_ctrl(aliased(self.ctrl, val, alias))
            }).triggered()
        } else {
            self
        }
    }

    pub fn new() -> (c: Channel)
        ensures
            c == Channel::at_reset(),
    {
        Channel {
            read_addr: 0,
            write_addr: 0,
            trans_count: 0,
            trans_count_reload: 0,
            ctrl: 0,
            busy: false,
            trig_ctrl: 0,
            trig_trans_count: 0,
            trig_al2_trans: 0,
            trig_write_addr: 0,
            trig_read_addr: 0,
            trig_multi: 0,
            trig_chain: 0,
            ever_wrote_pio1_txf_mask: 0,
        }
    }

    pub fn trigger(&mut self)
        ensures
            *final(self) == old(self).triggered(),
    {
        if self.ctrl & CTRL_EN != 0 && self.trans_count != 0 {
            self.busy = true;
        }
    }

    fn trigger_multi(&mut self)
        ensures
            *final(self) == old(self).multi_triggered(),
    {
        self.trig_multi = add32(self.trig_multi, 1);
        self.trigger();
    }

    fn set_write_addr(&mut self, addr: u32)
        ensures
            *final(self) == old(self).with_write_addr(addr),
    {
        self.write_addr = addr;
        let txf: u32 = match addr {
            0x5030_0010 => 1,
            0x5030_0014 => 2,
            0x5030_0018 => 4,
            0x5030_001C => 8,
            _ => 0,
        };
        self.ever_wrote_pio1_txf_mask = self.ever_wrote_pio1_txf_mask | txf;
    }

    fn set_count(&mut self, n: u32)
        ensures
            *final(self) == old(self).with_count(n),
    {
        self.trans_count = n;
        self.trans_count_reload = n;
    }

    pub fn chain(&mut self)
        ensures
            *final(self) == old(self).chained(),
    {
        if self.trans_count_reload != 0 {
            self.trans_count = self.trans_count_reload;
        }
        self.trig_chain = add32(self.trig_chain, 1);
        self.trigger();
    }

    pub fn transfer_size(&self) -> (out: u32)
        ensures
            out == self.size(),
    {
        match (self.ctrl >> 2) & 0x3 {
            0 => 1,
            1 => 2,
            _ => 4,
        }
    }

    fn step_addr(addr: u32, ring: u32, size: u32) -> (out: u32)
        requires
            ring < 16,
        ensures
            out == ring_next(addr, ring, size),
    {
        if ring == 0 {
            add32(addr, size)
        } else {
            proof {
                lemma_ring_mask(ring);
            }
            let mask: u32 = (1u32 << ring) - 1;
            (addr & !mask) | (add32(addr, size) & mask)
        }
    }

    pub fn step(&mut self)
        ensures
            *final(self) == old(self).stepped(),
    {
        let on_write = self.ctrl & CTRL_RING_SEL != 0;
        let ring: u32 = (self.ctrl >> 6) & 0xF;
        proof {
            lemma_ctrl_fields(self.ctrl);
        }
        let size: u32 = self.transfer_size();
        if self.ctrl & CTRL_INCR_READ != 0 {
            self.read_addr = Channel::step_addr(
                self.read_addr,
                if on_write {
                    0
                } else {
                    ring
                },
                size,
            );
        }
        if self.ctrl & CTRL_INCR_WRITE != 0 {
            self.write_addr = Channel::step_addr(
                self.write_addr,
                if on_write {
                    ring
                } else {
                    0
                },
                size,
            );
        }
        self.trans_count = add32(self.trans_count, 0xFFFF_FFFF);
        self.busy = self.trans_count != 0;
    }

    fn read32(&self, inner: u32) -> (out: u32)
        ensures
            out == self.word_at(inner),
    {
        match inner {
            0x00 | 0x14 | 0x28 | 0x3C => self.read_addr,
            0x04 | 0x18 | 0x2C | 0x34 => self.write_addr,
            0x08 | 0x1C | 0x24 | 0x38 => self.trans_count,
            0x0C | 0x10 | 0x20 | 0x30 => if self.busy {
                self.ctrl | CTRL_BUSY
            } else {
                self.ctrl
            },
            _ => 0,
        }
    }

    fn write32(&mut self, inner: u32, val: u32, alias: u32)
        ensures
            *final(self) == old(self).after_write(inner, val, alias),
    {
        match inner {
            0x00 | 0x14 | 0x28 => {
                self.read_addr = apply_alias(self.read_addr, val, alias);
            },
            0x3C => {
                self.read_addr = apply_alias(self.read_addr, val, alias);
                self.trig_read_addr = add32(self.trig_read_addr, 1);
                self.trigger();
            },
            0x04 | 0x2C | 0x34 => {
                let addr: u32 = apply_alias(self.write_addr, val, alias);
                self.set_write_addr(addr);
            },
            0x18 => {
                let addr: u32 = apply_alias(self.write_addr, val, alias);
                self.set_write_addr(addr);
                self.trig_write_addr = add32(self.trig_write_addr, 1);
                self.trigger();
            },
            0x08 | 0x38 => {
                let n: u32 = apply_alias(self.trans_count, val, alias);
                self.set_count(n);
            },
            0x1C => {
                let n: u32 = apply_alias(self.trans_count, val, alias);
                self.set_count(n);
                self.trig_trans_count = add32(self.trig_trans_count, 1);
                self.trigger();
            },
            0x24 => {
                let n: u32 = apply_alias(self.trans_count, val, alias);
                self.set_count(n);
                self.trig_al2_trans = add32(self.trig_al2_trans, 1);
                self.trigger();
            },
            0x10 | 0x20 | 0x30 => {
                self.ctrl = apply_alias(self.ctrl, val, alias) & CTRL_STORED;
            },
            0x0C => {
                self.ctrl = apply_alias(self.ctrl, val, alias) & CTRL_STORED;
                self.trig_ctrl = add32(self.trig_ctrl, 1);
                self.trigger();
            },
            _ => {},
        }
    }
}

proof fn lemma_ring_mask(ring: u32)
    requires
        ring < 16,
    ensures
        1u32 << ring >= 1,
{
    lemma_bit_ops(0, 0, 0, ring);
}

pub proof fn lemma_ctrl_fields(ctrl: u32)
    ensures
        (ctrl >> 6) & 0xF < 16,
        (ctrl >> 11) & 0xF < 16,
        (ctrl >> 15) & 0x3F < 64,
{
    lemma_word_facts(ctrl, 0, 0);
}

/// A ring address never leaves its ring: the bits above the ring stay.
pub proof fn law_ring_stays_in_ring(addr: u32, ring: u32, size: u32)
    requires
        0 < ring < 16,
    ensures
        ring_next(addr, ring, size) & !(((1u32 << ring) - 1) as u32) == addr & !(((1u32 << ring) - 1) as u32),
{
    let mask = ((1u32 << ring) - 1) as u32;
    let next = wadd(addr, size);
    lemma_word_facts(addr, next, mask);
}

#[derive(Clone, Copy, Debug, PartialEq, Eq)]
pub struct Dma {
    pub channels: [Channel; 12],
    pub intr: u32,
    pub inte0: u32,
    pub intf0: u32,
    pub inte1: u32,
    pub intf1: u32,
    pub timers: [u32; 4],
    pub sniff_ctrl: u32,
    pub sniff_data: u32,
}

impl Dma {
    pub open spec fn at_reset() -> Dma {
        Dma {
            channels: spec_array_fill_for_copy_type::<Channel, 12>(Channel::at_reset()),
            intr: 0,
            inte0: 0,
            intf0: 0,
            inte1: 0,
            intf1: 0,
            timers: spec_array_fill_for_copy_type::<u32, 4>(0),
            sniff_ctrl: 0,
            sniff_data: 0,
        }
    }

    pub open spec fn with_channel(self, n: int, c: Channel) -> Dma {
        Dma { channels: spec_array_update(self.channels, n, c), ..self }
    }

    pub open spec fn ints0(self) -> u32 {
        (self.intr | self.intf0) & self.inte0
    }

    pub open spec fn ints1(self) -> u32 {
        (self.intr | self.intf1) & self.inte1
    }

    /// Every channel below `n` that `mask` names triggered.
    pub open spec fn triggered_upto(self, n: nat, mask: u32) -> Dma
        decreases n,
    {
        if n == 0 {
            self
        } else {
            let d = self.triggered_upto((n - 1) as nat, mask);
            if bit(mask, n - 1) {
                d.with_channel(n - 1, d.channels[n - 1].multi_triggered())
            } else {
                d
            }
        }
    }

    /// Every channel below `n` that `mask` names stopped.
    pub open spec fn aborted_upto(self, n: nat, mask: u32) -> Dma
        decreases n,
    {
        if n == 0 {
            self
        } else {
            let d = self.aborted_upto((n - 1) as nat, mask);
            if bit(mask, n - 1) {
                d.with_channel(n - 1, Channel { busy: false, ..d.channels[n - 1] })
            } else {
                d
            }
        }
    }

    pub open spec fn word_at(self, offset: u32) -> u32 {
        if offset < 0x300 {
            self.channels[(offset / 0x40) as int].word_at(offset % 0x40)
        } else if offset == REG_INTR {
            self.intr
        } else if offset == REG_INTE0 {
            self.inte0
        } else if offset == REG_INTF0 {
            self.intf0
        } else if offset == REG_INTS0 {
            self.ints0()
        } else if offset == REG_INTE1 {
            self.inte1
        } else if offset == REG_INTF1 {
            self.intf1
        } else if offset == REG_INTS1 {
            self.ints1()
        } else if offset == 0x420 || offset == 0x424 || offset == 0x428 || offset == 0x42C {
            self.timers[(offset - REG_TIMER0) / 4]
        } else if offset == REG_SNIFF_CTRL {
            self.sniff_ctrl
        } else if offset == REG_SNIFF_DATA {
            self.sniff_data
        } else if 0x800 <= offset < 0xB00 && offset % 0x40 == 4 {
            self.channels[(offset - 0x800) / 0x40].trans_count
        } else {
            0
        }
    }

    pub open spec fn after_write(self, offset: u32, val: u32, alias: u32) -> Dma {
        if offset < 0x300 {
            let n = (offset / 0x40) as int;
            self.with_channel(n, self.channels[n].after_write(offset % 0x40, val, alias))
        } else if offset == REG_INTR || offset == REG_INTS0 || offset == REG_INTS1 {
            Dma { intr: self.intr & !val, ..self }
        } else if offset == REG_INTE0 {
            Dma { inte0: aliased(self.inte0, val, alias) & CHANNEL_MASK, ..self }
        } else if offset == REG_INTF0 {
            Dma { intf0: aliased(self.intf0, val, alias) & CHANNEL_MASK, ..self }
        } else if offset == REG_INTE1 {
            Dma { inte1: aliased(self.inte1, val, alias) & CHANNEL_MASK, ..self }
        } else if offset == REG_INTF1 {
            Dma { intf1: aliased(self.intf1, val, alias) & CHANNEL_MASK, ..self }
        } else if offset == 0x420 || offset == 0x424 || offset == 0x428 || offset == 0x42C {
            let n = (offset - REG_TIMER0) / 4;
            Dma { timers: spec_array_update(self.timers, n, aliased(self.timers[n], val, alias)), ..self }
        } else if offset == REG_MULTI_CHAN_TRIGGER {
            self.triggered_upto(12, val)
        } else if offset == REG_SNIFF_CTRL {
            Dma { sniff_ctrl: aliased(self.sniff_ctrl, val, alias), ..self }
        } else if offset == REG_SNIFF_DATA {
            Dma { sniff_data: aliased(self.sniff_data, val, alias), ..self }
        } else if offset == REG_CHAN_ABORT {
            self.aborted_upto(12, val)
        } else {
            self
        }
    }

    /// Channel `n` is busy and its request line asks.
    pub open spec fn ready(self, n: int, dreqs: u64) -> bool {
        self.channels[n].busy && (dreqs >> (self.channels[n].treq() as u64)) & 1 == 1
    }

    /// The lowest-numbered ready channel from `n` on.
    pub open spec fn first_ready_from(self, n: int, dreqs: u64) -> Option<int>
        decreases 12 - n,
    {
        if n >= 12 {
            None
        } else if self.ready(n, dreqs) {
            Some(n)
        } else {
            self.first_ready_from(n + 1, dreqs)
        }
    }

    /// Channel `n` after one transfer. The last one latches the interrupt,
    /// unless the channel is quiet, and starts the channel that it chains to.
    pub open spec fn after_transfer(self, n: int) -> Dma {
        let c = self.channels[n].stepped();
        let moved = self.with_channel(n, c);
        if c.busy {
            moved
        } else {
            let done = Dma {
                intr: if c.ctrl & CTRL_IRQ_QUIET == 0 {
                    moved.intr | (1u32 << (n as u32))
                } else {
                    moved.intr
                },
                ..moved
            };
            let to = c.chain_to() as int;
            if to != n && to < 12 {
                done.with_channel(to, done.channels[to].chained())
            } else {
                done
            }
        }
    }

    pub open spec fn routed(self, irqs: u32) -> u32 {
        let a = if self.ints0() != 0 {
            irqs | (1u32 << IRQ_DMA_IRQ_0)
        } else {
            irqs
        };
        if self.ints1() != 0 {
            a | (1u32 << IRQ_DMA_IRQ_1)
        } else {
            a
        }
    }

    pub open spec fn any_busy(self) -> bool {
        exists|n: int| 0 <= n < 12 && #[trigger] self.channels[n].busy
    }

    pub fn new() -> (d: Dma)
        ensures
            d == Dma::at_reset(),
    {
        Dma {
            channels: [Channel::new();12],
            intr: 0,
            inte0: 0,
            intf0: 0,
            inte1: 0,
            intf1: 0,
            timers: [0;4],
            sniff_ctrl: 0,
            sniff_data: 0,
        }
    }

    pub fn reset(&mut self)
        ensures
            *final(self) == Dma::at_reset(),
    {
        *self = Dma::new();
    }

    pub fn channel(&self, n: usize) -> (c: &Channel)
        requires
            n < 12,
        ensures
            *c == self.channels[n as int],
    {
        &self.channels[n]
    }

    pub fn intr(&self) -> (out: u32)
        ensures
            out == self.intr,
    {
        self.intr
    }

    pub fn is_idle(&self) -> (out: bool)
        ensures
            out == (!self.any_busy() && self.intr == 0),
    {
        let mut n: usize = 0;
        while n < 12
            invariant
                n <= 12,
                forall|k: int| 0 <= k < n ==> !self.channels[k].busy,
            decreases 12 - n,
        {
            if self.channels[n].busy {
                return false;
            }
            n += 1;
        }
        self.intr == 0
    }

    pub fn read32(&self, offset: u32) -> (out: u32)
        ensures
            out == self.word_at(offset),
    {
        if offset < 0x300 {
            self.channels[(offset / 0x40) as usize].read32(offset % 0x40)
        } else if 0x800 <= offset && offset < 0xB00 {
            if offset % 0x40 == 4 {
                self.channels[((offset - 0x800) / 0x40) as usize].trans_count
            } else {
                0
            }
        } else {
            match offset {
                REG_INTR => self.intr,
                REG_INTE0 => self.inte0,
                REG_INTF0 => self.intf0,
                REG_INTS0 => (self.intr | self.intf0) & self.inte0,
                REG_INTE1 => self.inte1,
                REG_INTF1 => self.intf1,
                REG_INTS1 => (self.intr | self.intf1) & self.inte1,
                0x420 => self.timers[0],
                0x424 => self.timers[1],
                0x428 => self.timers[2],
                0x42C => self.timers[3],
                REG_SNIFF_CTRL => self.sniff_ctrl,
                REG_SNIFF_DATA => self.sniff_data,
                _ => 0,
            }
        }
    }

    fn trigger_mask(&mut self, mask: u32)
        ensures
            *final(self) == old(self).triggered_upto(12, mask),
    {
        let ghost before = *self;
        let mut n: usize = 0;
        while n < 12
            invariant
                n <= 12,
                *self == before.triggered_upto(n as nat, mask),
            decreases 12 - n,
        {
            if (mask >> (n as u32)) & 1 == 1 {
                self.channels[n].trigger_multi();
            }
            n += 1;
        }
    }

    fn abort_mask(&mut self, mask: u32)
        ensures
            *final(self) == old(self).aborted_upto(12, mask),
    {
        let ghost before = *self;
        let mut n: usize = 0;
        while n < 12
            invariant
                n <= 12,
                *self == before.aborted_upto(n as nat, mask),
            decreases 12 - n,
        {
            if (mask >> (n as u32)) & 1 == 1 {
                self.channels[n].busy = false;
            }
            n += 1;
        }
    }

    pub fn write32(&mut self, offset: u32, val: u32, alias: u32)
        ensures
            *final(self) == old(self).after_write(offset, val, alias),
    {
        if offset < 0x300 {
            self.channels[(offset / 0x40) as usize].write32(offset % 0x40, val, alias);
            return;
        }
        match offset {
            REG_INTR | REG_INTS0 | REG_INTS1 => {
                self.intr = self.intr & !val;
            },
            REG_INTE0 => {
                self.inte0 = apply_alias(self.inte0, val, alias) & CHANNEL_MASK;
            },
            REG_INTF0 => {
                self.intf0 = apply_alias(self.intf0, val, alias) & CHANNEL_MASK;
            },
            REG_INTE1 => {
                self.inte1 = apply_alias(self.inte1, val, alias) & CHANNEL_MASK;
            },
            REG_INTF1 => {
                self.intf1 = apply_alias(self.intf1, val, alias) & CHANNEL_MASK;
            },
            0x420 | 0x424 | 0x428 | 0x42C => {
                let n: usize = ((offset - REG_TIMER0) / 4) as usize;
                let v: u32 = apply_alias(self.timers[n], val, alias);
                self.timers[n] = v;
            },
            REG_MULTI_CHAN_TRIGGER => {
                self.trigger_mask(val);
            },
            REG_SNIFF_CTRL => {
                self.sniff_ctrl = apply_alias(self.sniff_ctrl, val, alias);
            },
            REG_SNIFF_DATA => {
                self.sniff_data = apply_alias(self.sniff_data, val, alias);
            },
            REG_CHAN_ABORT => {
                self.abort_mask(val);
            },
            _ => {},
        }
    }

    /// The lowest-numbered busy channel whose request line asks.
    pub fn select(&self, dreqs: u64) -> (out: Option<usize>)
        ensures
            out matches Some(n) ==> n < 12 && self.first_ready_from(0, dreqs) == Some(n as int),
            out is None ==> self.first_ready_from(0, dreqs) is None,
    {
        let mut n: usize = 0;
        while n < 12
            invariant
                n <= 12,
                self.first_ready_from(0, dreqs) == self.first_ready_from(n as int, dreqs),
            decreases 12 - n,
        {
            let treq: u32 = (self.channels[n].ctrl >> 15) & 0x3F;
            proof {
                lemma_ctrl_fields(self.channels[n as int].ctrl);
            }
            if self.channels[n].busy && (dreqs >> (treq as u64)) & 1 == 1 {
                return Some(n);
            }
            n += 1;
        }
        None
    }

    /// Books one transfer of channel `n`.
    pub fn finish_transfer(&mut self, n: usize)
        requires
            n < 12,
        ensures
            *final(self) == old(self).after_transfer(n as int),
    {
        self.channels[n].step();
        if self.channels[n].busy {
            return;
        }
        let ctrl: u32 = self.channels[n].ctrl;
        if ctrl & CTRL_IRQ_QUIET == 0 {
            self.intr = self.intr | (1u32 << (n as u32));
        }
        let to: usize = ((ctrl >> 11) & 0xF) as usize;
        if to != n && to < 12 {
            self.channels[to].chain();
        }
    }

    pub fn route_irqs(&self, irqs: &mut u32)
        ensures
            *final(irqs) == self.routed(*old(irqs)),
    {
        if (self.intr | self.intf0) & self.inte0 != 0 {
            *irqs = *irqs | (1u32 << IRQ_DMA_IRQ_0);
        }
        if (self.intr | self.intf1) & self.inte1 != 0 {
            *irqs = *irqs | (1u32 << IRQ_DMA_IRQ_1);
        }
    }
}

impl Default for Dma {
    fn default() -> (d: Dma)
        ensures
            d == Dma::at_reset(),
    {
        Dma::new()
    }
}

/// Arbitration is fair to the lowest number only: the channel that moves is
/// ready, and no lower-numbered channel is.
pub proof fn law_lowest_ready_channel_wins(d: Dma, from: int, dreqs: u64)
    requires
        0 <= from <= 12,
    ensures
        match d.first_ready_from(from, dreqs) {
            Some(n) => from <= n < 12 && d.ready(n, dreqs) && forall|k: int| from <= k < n ==> !d.ready(k, dreqs),
            None => forall|k: int| from <= k < 12 ==> !d.ready(k, dreqs),
        },
    decreases 12 - from,
{
    if from < 12 && !d.ready(from, dreqs) {
        law_lowest_ready_channel_wins(d, from + 1, dreqs);
    }
}

/// Aborting stops exactly the named channels and changes nothing else of any
/// channel.
pub proof fn law_abort_stops_the_named(d: Dma, n: nat, mask: u32, k: int)
    requires
        n <= 12,
        0 <= k < 12,
    ensures
        d.aborted_upto(n, mask).channels[k] == (Channel {
            busy: d.channels[k].busy && !(k < n && bit(mask, k)),
            ..d.channels[k]
        }),
    decreases n,
{
    if n > 0 {
        law_abort_stops_the_named(d, (n - 1) as nat, mask, k);
    }
}

} // verus!
