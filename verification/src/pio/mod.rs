//! A programmable I/O block: four state machines over one program memory.
use vstd::array::{spec_array_fill_for_copy_type, spec_array_update};
use vstd::prelude::*;

use crate::bits::{aliased, apply_alias, bit};
use crate::pio::sm::{field, Shared, Sm};

pub mod block_laws;
pub mod laws;
pub mod sm;

verus! {

pub const PIO_CTRL: u32 = 0x000;
pub const PIO_FSTAT: u32 = 0x004;
pub const PIO_FLEVEL: u32 = 0x00C;
pub const PIO_IRQ: u32 = 0x030;
pub const PIO_IRQ_FORCE: u32 = 0x034;
pub const PIO_INPUT_SYNC_BYPASS: u32 = 0x038;
pub const PIO_DBG_PADOUT: u32 = 0x03C;
pub const PIO_DBG_PADOE: u32 = 0x040;
pub const PIO_DBG_CFGINFO: u32 = 0x044;
pub const PIO_INTR: u32 = 0x16C;
pub const PIO_INT0_INTE: u32 = 0x170;
pub const PIO_INT0_INTF: u32 = 0x174;
pub const PIO_INT0_INTS: u32 = 0x178;
pub const PIO_INT1_INTE: u32 = 0x17C;
pub const PIO_INT1_INTF: u32 = 0x180;
pub const PIO_INT1_INTS: u32 = 0x184;

/// Thirty-two instructions, four machines, queues of four.
pub const CFGINFO: u32 = 0x0020_0404;

#[derive(Clone, Copy, Debug, PartialEq, Eq)]
pub struct Pio {
    pub sms: [Sm; 4],
    pub instr_mem: [u32; 32],
    /// The eight interrupt flags.
    pub irq: u32,
    pub pad_out: u32,
    pub pad_oe: u32,
    pub inte0: u32,
    pub intf0: u32,
    pub inte1: u32,
    pub intf1: u32,
    pub input_sync_bypass: u32,
    /// The pins as the block last sampled them.
    pub input: u32,
}

impl Sm {
    pub open spec fn word_at(self, inner: u32, op: u32) -> u32 {
        if inner == 0x00 {
            self.clkdiv
        } else if inner == 0x04 {
            if self.forced is Some {
                self.execctrl | 0x8000_0000
            } else {
                self.execctrl
            }
        } else if inner == 0x08 {
            self.shiftctrl
        } else if inner == 0x0C {
            self.pc
        } else if inner == 0x10 {
            op
        } else if inner == 0x14 {
            self.pinctrl
        } else {
            0
        }
    }

    /// Joining or splitting the queues empties both.
    pub open spec fn with_shiftctrl(self, val: u32) -> Sm {
        if (val ^ self.shiftctrl) & 0xC000_0000 != 0 {
            Sm {
                shiftctrl: val,
                tx: self.tx.truncated(0),
                rx: self.rx.truncated(0),
                ..self
            }
        } else {
            Sm { shiftctrl: val, ..self }
        }
    }

    pub open spec fn with_config(self, inner: u32, val: u32, alias: u32) -> Sm {
        if inner == 0x00 {
            Sm { clkdiv: aliased(self.clkdiv, val, alias) & 0xFFFF_FF00, ..self }
        } else if inner == 0x04 {
            Sm { execctrl: aliased(self.execctrl, val, alias) & 0x7FFF_FF9F, ..self }
        } else if inner == 0x08 {
            self.with_shiftctrl(aliased(self.shiftctrl, val, alias) & 0xFFFF_0000)
        } else if inner == 0x14 {
            Sm { pinctrl: aliased(self.pinctrl, val, alias), ..self }
        } else {
            self
        }
    }

    /// A machine restart: the shift registers are emptied and whatever it
    /// was waiting for is forgotten.
    pub open spec fn restarted(self) -> Sm {
        Sm {
            isr: 0,
            isr_count: 0,
            osr_count: 32,
            delay: 0,
            forced: None,
            irq_waiting: false,
            ..self
        }
    }

    /// The machine after the three fields of a control write that are its
    /// own: enable, restart, clock restart.
    pub open spec fn controlled(self, enable: bool, restart: bool, clock_restart: bool) -> Sm {
        let a = if restart {
            self.restarted()
        } else {
            self
        };
        let b = if clock_restart {
            Sm { clock: 0, ..a }
        } else {
            a
        };
        Sm { enabled: enable, ..b }
    }

    fn read_config(&self, inner: u32, op: u32) -> (out: u32)
        ensures
            out == self.word_at(inner, op),
    {
        match inner {
            0x00 => self.clkdiv,
            0x04 => if self.forced.is_some() {
                self.execctrl | 0x8000_0000
            } else {
                self.execctrl
            },
            0x08 => self.shiftctrl,
            0x0C => self.pc,
            0x10 => op,
            0x14 => self.pinctrl,
            _ => 0,
        }
    }

    fn write_config(&mut self, inner: u32, val: u32, alias: u32)
        ensures
            *final(self) == old(self).with_config(inner, val, alias),
    {
        match inner {
            0x00 => {
                self.clkdiv = apply_alias(self.clkdiv, val, alias) & 0xFFFF_FF00;
            },
            0x04 => {
                self.execctrl = apply_alias(self.execctrl, val, alias) & 0x7FFF_FF9F;
            },
            0x08 => {
                let next: u32 = apply_alias(self.shiftctrl, val, alias) & 0xFFFF_0000;
                if (next ^ self.shiftctrl) & 0xC000_0000 != 0 {
                    self.tx.truncate(0);
                    self.rx.truncate(0);
                }
                self.shiftctrl = next;
            },
            0x14 => {
                self.pinctrl = apply_alias(self.pinctrl, val, alias);
            },
            _ => {},
        }
    }

    fn control(&mut self, enable: bool, restart: bool, clock_restart: bool)
        ensures
            *final(self) == old(self).controlled(enable, restart, clock_restart),
    {
        if restart {
            self.isr = 0;
            self.isr_count = 0;
            self.osr_count = 32;
            self.delay = 0;
            self.forced = None;
            self.irq_waiting = false;
        }
        if clock_restart {
            self.clock = 0;
        }
        self.enabled = enable;
    }
}

impl Pio {
    pub open spec fn at_reset() -> Pio {
        Pio {
            sms: spec_array_fill_for_copy_type::<Sm, 4>(Sm::at_reset()),
            instr_mem: spec_array_fill_for_copy_type::<u32, 32>(0),
            irq: 0,
            pad_out: 0,
            pad_oe: 0,
            inte0: 0,
            intf0: 0,
            inte1: 0,
            intf1: 0,
            input_sync_bypass: 0,
            input: 0,
        }
    }

    pub open spec fn with_sm(self, n: int, sm: Sm) -> Pio {
        Pio { sms: spec_array_update(self.sms, n, sm), ..self }
    }

    pub open spec fn shared(self) -> Shared {
        Shared { irq: self.irq, out: self.pad_out, oe: self.pad_oe }
    }

    pub open spec fn with_shared(self, s: Shared) -> Pio {
        Pio { irq: s.irq, pad_out: s.out, pad_oe: s.oe, ..self }
    }

    /// The instruction that machine `n` would fetch.
    pub open spec fn fetch(self, n: int) -> u32 {
        self.instr_mem[(self.sms[n].pc % 32) as int]
    }

    /// No machine runs and no flag is up.
    pub open spec fn idle(self) -> bool {
        &&& !self.sms[0].enabled
        &&& !self.sms[1].enabled
        &&& !self.sms[2].enabled
        &&& !self.sms[3].enabled
        &&& self.irq == 0
    }

    /// Bit `n` for each machine that `f` holds of, from bit `at` up.
    #[verifier::opaque]
    pub open spec fn per_sm(a: bool, b: bool, c: bool, d: bool, at: u32) -> u32 {
        (if a { 1u32 << at } else { 0u32 }) | (if b { 2u32 << at } else { 0u32 }) | (if c { 4u32 << at } else { 0u32 }) | (if d { 8u32 << at } else { 0u32 })
    }

    pub open spec fn enables(self) -> u32 {
        Pio::per_sm(self.sms[0].enabled, self.sms[1].enabled, self.sms[2].enabled, self.sms[3].enabled, 0)
    }

    pub open spec fn tx_full(self, n: int) -> bool {
        self.sms[n].tx.count >= self.sms[n].tx_depth()
    }

    pub open spec fn rx_full(self, n: int) -> bool {
        self.sms[n].rx.count >= self.sms[n].rx_depth()
    }

    pub open spec fn fstat(self) -> u32 {
        Pio::per_sm(self.sms[0].tx.count == 0, self.sms[1].tx.count == 0, self.sms[2].tx.count == 0, self.sms[3].tx.count == 0, 24)
            | Pio::per_sm(self.tx_full(0), self.tx_full(1), self.tx_full(2), self.tx_full(3), 16)
            | Pio::per_sm(self.sms[0].rx.count == 0, self.sms[1].rx.count == 0, self.sms[2].rx.count == 0, self.sms[3].rx.count == 0, 8)
            | Pio::per_sm(self.rx_full(0), self.rx_full(1), self.rx_full(2), self.rx_full(3), 0)
    }

    pub open spec fn flevel(self) -> u32 {
        ((self.sms[0].tx.count as u32 & 0xF) | ((self.sms[0].rx.count as u32 & 0xF) << 4))
            | (((self.sms[1].tx.count as u32 & 0xF) << 8) | ((self.sms[1].rx.count as u32 & 0xF) << 12))
            | (((self.sms[2].tx.count as u32 & 0xF) << 16) | ((self.sms[2].rx.count as u32 & 0xF) << 20))
            | (((self.sms[3].tx.count as u32 & 0xF) << 24) | ((self.sms[3].rx.count as u32 & 0xF) << 28))
    }

    /// Raw interrupts: the low four flags, then transmit queues with room,
    /// then receive queues with data.
    pub open spec fn intr(self) -> u32 {
        (self.irq & 0xF) | Pio::per_sm(!self.tx_full(0), !self.tx_full(1), !self.tx_full(2), !self.tx_full(3), 4)
            | Pio::per_sm(self.sms[0].rx.count > 0, self.sms[1].rx.count > 0, self.sms[2].rx.count > 0, self.sms[3].rx.count > 0, 8)
    }

    pub open spec fn ints0(self) -> u32 {
        (self.intr() & self.inte0) | self.intf0
    }

    pub open spec fn ints1(self) -> u32 {
        (self.intr() & self.inte1) | self.intf1
    }

    pub open spec fn is_sm_reg(offset: u32) -> bool {
        0x0C8 <= offset < 0x128
    }

    pub open spec fn is_txf(offset: u32) -> bool {
        offset == 0x010 || offset == 0x014 || offset == 0x018 || offset == 0x01C
    }

    pub open spec fn is_rxf(offset: u32) -> bool {
        offset == 0x020 || offset == 0x024 || offset == 0x028 || offset == 0x02C
    }

    pub open spec fn is_instr_mem(offset: u32) -> bool {
        0x048 <= offset < 0x0C8 && offset % 4 == 0
    }

    pub open spec fn word_at(self, offset: u32) -> u32 {
        if offset == PIO_CTRL {
            self.enables()
        } else if offset == PIO_FSTAT {
            self.fstat()
        } else if offset == PIO_FLEVEL {
            self.flevel()
        } else if Pio::is_rxf(offset) {
            self.sms[(offset - 0x020) / 4].rx.front()
        } else if offset == PIO_IRQ {
            self.irq
        } else if offset == PIO_INPUT_SYNC_BYPASS {
            self.input_sync_bypass
        } else if offset == PIO_DBG_PADOUT {
            self.pad_out
        } else if offset == PIO_DBG_PADOE {
            self.pad_oe
        } else if offset == PIO_DBG_CFGINFO {
            CFGINFO
        } else if Pio::is_sm_reg(offset) {
            let n = (offset - 0x0C8) / 0x18;
            self.sms[n].word_at(((offset - 0x0C8) % 0x18) as u32, self.fetch(n))
        } else if offset == PIO_INTR {
            self.intr()
        } else if offset == PIO_INT0_INTE {
            self.inte0
        } else if offset == PIO_INT0_INTF {
            self.intf0
        } else if offset == PIO_INT0_INTS {
            self.ints0()
        } else if offset == PIO_INT1_INTE {
            self.inte1
        } else if offset == PIO_INT1_INTF {
            self.intf1
        } else if offset == PIO_INT1_INTS {
            self.ints1()
        } else {
            0
        }
    }

    /// Reading a receive register takes the oldest word of its queue.
    pub open spec fn after_read(self, offset: u32) -> Pio {
        if Pio::is_rxf(offset) {
            let n = (offset - 0x020) / 4;
            self.with_sm(n, Sm { rx: self.sms[n].rx.dropped(1), ..self.sms[n] })
        } else {
            self
        }
    }

    pub open spec fn controlled_upto(self, n: nat, enables: u32, val: u32) -> Pio
        decreases n,
    {
        if n == 0 {
            self
        } else {
            let p = self.controlled_upto((n - 1) as nat, enables, val);
            p.with_sm(
                n - 1,
                p.sms[n - 1].controlled(bit(enables, n - 1), bit(val, (n + 3) as int), bit(val, (n + 7) as int)),
            )
        }
    }

    /// An instruction written to a machine runs at once, on the pins last
    /// sampled; where it has to wait, it is held for the machine's next
    /// clock.
    pub open spec fn after_instruction(self, n: int, op: u32) -> Pio {
        let sm = self.sms[n];
        let e = sm.executed(self.shared(), op & 0xFFFF, self.input, n as u32);
        self.with_sm(
            n,
            if e.stalled {
                Sm { forced: Some(op & 0xFFFF), ..e.sm }
            } else {
                e.sm
            },
        ).with_shared(e.shared)
    }

    pub open spec fn after_write(self, offset: u32, val: u32, alias: u32) -> Pio {
        if offset == PIO_CTRL {
            self.controlled_upto(4, aliased(self.enables(), val, alias), val)
        } else if Pio::is_txf(offset) {
            let n = (offset - 0x010) / 4;
            self.with_sm(
                n,
                Sm { tx: self.sms[n].tx.pushed(val, self.sms[n].tx_depth()), ..self.sms[n] },
            )
        } else if offset == PIO_IRQ {
            Pio { irq: self.irq & !val, ..self }
        } else if offset == PIO_IRQ_FORCE {
            Pio { irq: self.irq | (val & 0xFF), ..self }
        } else if offset == PIO_INPUT_SYNC_BYPASS {
            Pio { input_sync_bypass: aliased(self.input_sync_bypass, val, alias), ..self }
        } else if Pio::is_instr_mem(offset) {
            Pio {
                instr_mem: spec_array_update(self.instr_mem, (offset - 0x048) / 4, val & 0xFFFF),
                ..self
            }
        } else if Pio::is_sm_reg(offset) {
            let n = (offset - 0x0C8) / 0x18;
            let inner = ((offset - 0x0C8) % 0x18) as u32;
            if inner == 0x10 {
                self.after_instruction(n, val)
            } else {
                self.with_sm(n, self.sms[n].with_config(inner, val, alias))
            }
        } else if offset == PIO_INT0_INTE {
            Pio { inte0: aliased(self.inte0, val, alias) & 0xFFF, ..self }
        } else if offset == PIO_INT0_INTF {
            Pio { intf0: aliased(self.intf0, val, alias) & 0xFFF, ..self }
        } else if offset == PIO_INT1_INTE {
            Pio { inte1: aliased(self.inte1, val, alias) & 0xFFF, ..self }
        } else if offset == PIO_INT1_INTF {
            Pio { intf1: aliased(self.intf1, val, alias) & 0xFFF, ..self }
        } else {
            self
        }
    }

    /// One system clock of machine `n`: its divider counts, and on a full
    /// count the machine runs.
    pub open spec fn sm_ticked(self, n: int, input: u32) -> Pio {
        let sm = self.sms[n];
        let count = ((sm.clock + 256) % 0x1_0000_0000) as u32;
        if !sm.enabled {
            self
        } else if count < sm.divisor() {
            self.with_sm(n, Sm { clock: count, ..sm })
        } else {
            let (next, shared) = (Sm { clock: (count - sm.divisor()) as u32, ..sm }).clocked(
                self.shared(),
                self.fetch(n),
                input,
                n as u32,
            );
            self.with_sm(n, next).with_shared(shared)
        }
    }

    /// One system clock: the machines in order.
    pub open spec fn ticked(self, input: u32) -> Pio {
        self.sm_ticked(0, input).sm_ticked(1, input).sm_ticked(2, input).sm_ticked(3, input)
    }

    /// `cycles` system clocks with steady pins.
    pub open spec fn ran(self, cycles: nat, input: u32) -> Pio
        decreases cycles,
    {
        if cycles == 0 {
            self
        } else {
            self.ran((cycles - 1) as nat, input).ticked(input)
        }
    }

    /// The block after a tick, with the pins sampled.
    pub open spec fn after_tick(self, cycles: u32, input: u32) -> Pio {
        (Pio { input, ..self }).ran(cycles as nat, input)
    }

    pub fn new() -> (p: Pio)
        ensures
            p == Pio::at_reset(),
    {
        Pio {
            sms: [Sm::new();4],
            instr_mem: [0;32],
            irq: 0,
            pad_out: 0,
            pad_oe: 0,
            inte0: 0,
            intf0: 0,
            inte1: 0,
            intf1: 0,
            input_sync_bypass: 0,
            input: 0,
        }
    }

    pub fn is_idle(&self) -> (out: bool)
        ensures
            out == self.idle(),
    {
        !self.sms[0].enabled && !self.sms[1].enabled && !self.sms[2].enabled && !self.sms[3].enabled && self.irq
            == 0
    }

    /// The interrupt flags.
    pub fn pending_irqs(&self) -> (out: u32)
        ensures
            out == self.irq,
    {
        self.irq
    }

    /// Takes the oldest word of a machine's transmit queue.
    pub fn pop_tx(&mut self, n: usize) -> (out: Option<u32>)
        requires
            n < 4,
        ensures
            out == (if old(self).sms[n as int].tx.count == 0 {
                None
            } else {
                Some(old(self).sms[n as int].tx.front())
            }),
            *final(self) == old(self).with_sm(
                n as int,
                Sm { tx: old(self).sms[n as int].tx.dropped(1), ..old(self).sms[n as int] },
            ),
    {
        let empty = self.sms[n].tx.is_empty();
        let v: u32 = self.sms[n].tx.peek();
        self.sms[n].tx.drop_front(1);
        if empty {
            None
        } else {
            Some(v)
        }
    }

    fn mask4(a: bool, b: bool, c: bool, d: bool, at: u32) -> (out: u32)
        requires
            at <= 24,
        ensures
            out == Pio::per_sm(a, b, c, d, at),
    {
        reveal(Pio::per_sm);
        (if a { 1u32 << at } else { 0u32 }) | (if b { 2u32 << at } else { 0u32 }) | (if c { 4u32 << at } else { 0u32 }) | (if d { 8u32 << at } else { 0u32 })
    }

    pub fn is_tx_full(&self, n: usize) -> (out: bool)
        requires
            n < 4,
        ensures
            out == self.tx_full(n as int),
    {
        self.sms[n].tx.count >= self.sms[n].tx_room()
    }

    pub fn is_rx_empty(&self, n: usize) -> (out: bool)
        requires
            n < 4,
        ensures
            out == (self.sms[n as int].rx.count == 0),
    {
        self.sms[n].rx.is_empty()
    }

    fn is_rx_full(&self, n: usize) -> (out: bool)
        requires
            n < 4,
        ensures
            out == self.rx_full(n as int),
    {
        self.sms[n].rx.count >= self.sms[n].rx_room()
    }

    fn read_enables(&self) -> (out: u32)
        ensures
            out == self.enables(),
    {
        Pio::mask4(self.sms[0].enabled, self.sms[1].enabled, self.sms[2].enabled, self.sms[3].enabled, 0)
    }

    fn read_fstat(&self) -> (out: u32)
        ensures
            out == self.fstat(),
    {
        Pio::mask4(self.sms[0].tx.count == 0, self.sms[1].tx.count == 0, self.sms[2].tx.count == 0, self.sms[3].tx.count == 0, 24)
            | Pio::mask4(self.is_tx_full(0), self.is_tx_full(1), self.is_tx_full(2), self.is_tx_full(3), 16)
            | Pio::mask4(self.sms[0].rx.count == 0, self.sms[1].rx.count == 0, self.sms[2].rx.count == 0, self.sms[3].rx.count == 0, 8)
            | Pio::mask4(self.is_rx_full(0), self.is_rx_full(1), self.is_rx_full(2), self.is_rx_full(3), 0)
    }

    fn read_flevel(&self) -> (out: u32)
        ensures
            out == self.flevel(),
    {
        ((self.sms[0].tx.count as u32 & 0xF) | ((self.sms[0].rx.count as u32 & 0xF) << 4))
            | (((self.sms[1].tx.count as u32 & 0xF) << 8) | ((self.sms[1].rx.count as u32 & 0xF) << 12))
            | (((self.sms[2].tx.count as u32 & 0xF) << 16) | ((self.sms[2].rx.count as u32 & 0xF) << 20))
            | (((self.sms[3].tx.count as u32 & 0xF) << 24) | ((self.sms[3].rx.count as u32 & 0xF) << 28))
    }

    fn read_intr(&self) -> (out: u32)
        ensures
            out == self.intr(),
    {
        (self.irq & 0xF) | Pio::mask4(!self.is_tx_full(0), !self.is_tx_full(1), !self.is_tx_full(2), !self.is_tx_full(3), 4)
            | Pio::mask4(self.sms[0].rx.count > 0, self.sms[1].rx.count > 0, self.sms[2].rx.count > 0, self.sms[3].rx.count > 0, 8)
    }

    /// What the block's first interrupt line asserts.
    pub fn int0_ints(&self) -> (out: u32)
        ensures
            out == self.ints0(),
    {
        (self.read_intr() & self.inte0) | self.intf0
    }

    /// What its second asserts.
    pub fn int1_ints(&self) -> (out: u32)
        ensures
            out == self.ints1(),
    {
        (self.read_intr() & self.inte1) | self.intf1
    }

    pub fn read32(&mut self, offset: u32) -> (out: u32)
        ensures
            out == old(self).word_at(offset),
            *final(self) == old(self).after_read(offset),
    {
        if 0x0C8 <= offset && offset < 0x128 {
            let n: usize = ((offset - 0x0C8) / 0x18) as usize;
            let op: u32 = self.instr_mem[(self.sms[n].pc % 32) as usize];
            return self.sms[n].read_config((offset - 0x0C8) % 0x18, op);
        }
        match offset {
            PIO_CTRL => self.read_enables(),
            PIO_FSTAT => self.read_fstat(),
            PIO_FLEVEL => self.read_flevel(),
            0x020 | 0x024 | 0x028 | 0x02C => {
                let n: usize = ((offset - 0x020) / 4) as usize;
                let v: u32 = self.sms[n].rx.peek();
                self.sms[n].rx.drop_front(1);
                v
            },
            PIO_IRQ => self.irq,
            PIO_INPUT_SYNC_BYPASS => self.input_sync_bypass,
            PIO_DBG_PADOUT => self.pad_out,
            PIO_DBG_PADOE => self.pad_oe,
            PIO_DBG_CFGINFO => CFGINFO,
            PIO_INTR => self.read_intr(),
            PIO_INT0_INTE => self.inte0,
            PIO_INT0_INTF => self.intf0,
            PIO_INT0_INTS => self.int0_ints(),
            PIO_INT1_INTE => self.inte1,
            PIO_INT1_INTF => self.intf1,
            PIO_INT1_INTS => self.int1_ints(),
            _ => 0,
        }
    }

    fn write_ctrl(&mut self, enables: u32, val: u32)
        ensures
            *final(self) == old(self).controlled_upto(4, enables, val),
    {
        let ghost before = *self;
        let mut n: usize = 0;
        while n < 4
            invariant
                n <= 4,
                *self == before.controlled_upto(n as nat, enables, val),
            decreases 4 - n,
        {
            let at: u32 = n as u32;
            self.sms[n].control(
                (enables >> at) & 1 == 1,
                (val >> (at + 4)) & 1 == 1,
                (val >> (at + 8)) & 1 == 1,
            );
            n += 1;
        }
    }

    fn force_instruction(&mut self, n: usize, op: u32)
        requires
            n < 4,
        ensures
            *final(self) == old(self).after_instruction(n as int, op),
    {
        let shared = Shared { irq: self.irq, out: self.pad_out, oe: self.pad_oe };
        let e = self.sms[n].execute(shared, op & 0xFFFF, self.input, n as u32);
        let mut sm = e.sm;
        if e.stalled {
            sm.forced = Some(op & 0xFFFF);
        }
        self.sms[n] = sm;
        self.irq = e.shared.irq;
        self.pad_out = e.shared.out;
        self.pad_oe = e.shared.oe;
    }

    pub fn write32(&mut self, offset: u32, val: u32, alias: u32)
        ensures
            *final(self) == old(self).after_write(offset, val, alias),
    {
        if 0x048 <= offset && offset < 0x0C8 {
            if offset % 4 == 0 {
                self.instr_mem[((offset - 0x048) / 4) as usize] = val & 0xFFFF;
            }
            return;
        }
        if 0x0C8 <= offset && offset < 0x128 {
            let n: usize = ((offset - 0x0C8) / 0x18) as usize;
            let inner: u32 = (offset - 0x0C8) % 0x18;
            if inner == 0x10 {
                self.force_instruction(n, val);
            } else {
                self.sms[n].write_config(inner, val, alias);
            }
            return;
        }
        match offset {
            PIO_CTRL => {
                let enables: u32 = apply_alias(self.read_enables(), val, alias);
                self.write_ctrl(enables, val);
            },
            0x010 | 0x014 | 0x018 | 0x01C => {
                let n: usize = ((offset - 0x010) / 4) as usize;
                let depth: u8 = self.sms[n].tx_room();
                self.sms[n].tx.push(val, depth);
            },
            PIO_IRQ => {
                self.irq = self.irq & !val;
            },
            PIO_IRQ_FORCE => {
                self.irq = self.irq | (val & 0xFF);
            },
            PIO_INPUT_SYNC_BYPASS => {
                self.input_sync_bypass = apply_alias(self.input_sync_bypass, val, alias);
            },
            PIO_INT0_INTE => {
                self.inte0 = apply_alias(self.inte0, val, alias) & 0xFFF;
            },
            PIO_INT0_INTF => {
                self.intf0 = apply_alias(self.intf0, val, alias) & 0xFFF;
            },
            PIO_INT1_INTE => {
                self.inte1 = apply_alias(self.inte1, val, alias) & 0xFFF;
            },
            PIO_INT1_INTF => {
                self.intf1 = apply_alias(self.intf1, val, alias) & 0xFFF;
            },
            _ => {},
        }
    }

    fn tick_sm(&mut self, n: usize, input: u32)
        requires
            n < 4,
        ensures
            *final(self) == old(self).sm_ticked(n as int, input),
    {
        let mut sm = self.sms[n];
        if !sm.enabled {
            return;
        }
        let count: u32 = sm.clock.wrapping_add(256);
        let period: u32 = sm.period();
        if count < period {
            sm.clock = count;
            self.sms[n] = sm;
            return;
        }
        sm.clock = count - period;
        let op: u32 = self.instr_mem[(sm.pc % 32) as usize];
        let shared = Shared { irq: self.irq, out: self.pad_out, oe: self.pad_oe };
        let (next, after) = sm.clock(shared, op, input, n as u32);
        self.sms[n] = next;
        self.irq = after.irq;
        self.pad_out = after.out;
        self.pad_oe = after.oe;
    }

    /// Runs the block for `cycles` system clocks.
    pub fn tick(&mut self, cycles: u32, input: u32)
        ensures
            *final(self) == old(self).after_tick(cycles, input),
    {
        self.input = input;
        let ghost before = *self;
        if !self.sms[0].enabled && !self.sms[1].enabled && !self.sms[2].enabled && !self.sms[3].enabled {
            proof {
                lemma_stopped_block_stands_still(before, cycles as nat, input);
            }
            return;
        }
        let mut done: u32 = 0;
        while done < cycles
            invariant
                done <= cycles,
                *self == before.ran(done as nat, input),
            decreases cycles - done,
        {
            self.tick_sm(0, input);
            self.tick_sm(1, input);
            self.tick_sm(2, input);
            self.tick_sm(3, input);
            done += 1;
        }
    }
}

impl Default for Pio {
    fn default() -> (p: Pio)
        ensures
            p == Pio::at_reset(),
    {
        Pio::new()
    }
}

/// With no machine enabled, time changes nothing.
pub proof fn lemma_stopped_block_stands_still(p: Pio, cycles: nat, input: u32)
    requires
        !p.sms[0].enabled,
        !p.sms[1].enabled,
        !p.sms[2].enabled,
        !p.sms[3].enabled,
    ensures
        p.ran(cycles, input) == p,
    decreases cycles,
{
    if cycles > 0 {
        lemma_stopped_block_stands_still(p, (cycles - 1) as nat, input);
    }
}

/// Ticks add up: with steady pins, ticking for `a` and then for `b` clocks
/// leaves the block as one tick of `a + b` does.
pub proof fn law_ticks_add_up(p: Pio, a: nat, b: nat, input: u32)
    ensures
        p.ran(a, input).ran(b, input) == p.ran(a + b, input),
    decreases b,
{
    if b > 0 {
        law_ticks_add_up(p, a, (b - 1) as nat, input);
        assert(a + b - 1 == a + (b - 1));
    }
}

/// A block whose machines never act on the pins they see.
pub open spec fn unseeing(p: Pio) -> bool {
    forall|n: nat, a: u32, b: u32| #[trigger] p.ran(n, a) == #[trigger] p.ran(n, b)
}

/// A block that does not act on its pins ends up in the same state however
/// its time is divided, whatever the pins do in between.
pub proof fn law_time_can_be_divided(p: Pio, m: nat, n: nat, a: u32, b: u32, c: u32)
    requires
        unseeing(p),
    ensures
        p.ran(m, a).ran(n, b) == p.ran(m + n, c),
        unseeing(p.ran(m, a)),
{
    assert forall|k: nat, x: u32, y: u32|
        #[trigger] p.ran(m, a).ran(k, x) == #[trigger] p.ran(m, a).ran(k, y) by {
        assert(p.ran(m, a) == p.ran(m, x));
        assert(p.ran(m, a) == p.ran(m, y));
        law_ticks_add_up(p, m, k, x);
        law_ticks_add_up(p, m, k, y);
        assert(p.ran(m + k, x) == p.ran(m + k, y));
    }
    assert(p.ran(m, a) == p.ran(m, b));
    law_ticks_add_up(p, m, n, b);
    assert(p.ran(m + n, b) == p.ran(m + n, c));
}

/// An instruction that neither looks at a pin nor hands over another one:
/// jumps on anything but a pin, queue transfers, flags and immediate values.
pub open spec fn looks_at_nothing(op: u32) -> bool {
    let code = field(op, 13, 3);
    (code == 0 && field(op, 5, 3) != 6) || code == 4 || code >= 6
}

/// A block whose program consists of such instructions alone.
pub open spec fn drives_only(p: Pio) -> bool {
    &&& forall|i: int| 0 <= i < 32 ==> looks_at_nothing(#[trigger] p.instr_mem[i])
    &&& forall|n: int| 0 <= n < 4 ==> (#[trigger] p.sms[n]).forced is None
}

/// A block that only drives its pins does not act on them.
pub proof fn law_a_block_that_only_drives_is_unseeing(p: Pio)
    requires
        drives_only(p),
    ensures
        unseeing(p),
{
    assert forall|n: nat, a: u32, b: u32| #[trigger] p.ran(n, a) == #[trigger] p.ran(n, b) by {
        lemma_driving_block_ran(p, n, a, b);
    }
}

proof fn lemma_driving_block_ran(p: Pio, n: nat, a: u32, b: u32)
    requires
        drives_only(p),
    ensures
        p.ran(n, a) == p.ran(n, b),
        drives_only(p.ran(n, a)),
    decreases n,
{
    if n > 0 {
        lemma_driving_block_ran(p, (n - 1) as nat, a, b);
        let q = p.ran((n - 1) as nat, a);
        lemma_driving_machine_ticked(q, 0, a, b);
        let q1 = q.sm_ticked(0, a);
        lemma_driving_machine_ticked(q1, 1, a, b);
        let q2 = q1.sm_ticked(1, a);
        lemma_driving_machine_ticked(q2, 2, a, b);
        let q3 = q2.sm_ticked(2, a);
        lemma_driving_machine_ticked(q3, 3, a, b);
    }
}

proof fn lemma_driving_machine_ticked(p: Pio, n: int, a: u32, b: u32)
    requires
        drives_only(p),
        0 <= n < 4,
    ensures
        p.sm_ticked(n, a) == p.sm_ticked(n, b),
        drives_only(p.sm_ticked(n, a)),
{
    reveal(Sm::clocked);
    reveal(Sm::executed);
    assert(p.sms[n].forced is None);
    assert(looks_at_nothing(p.instr_mem[(p.sms[n].pc % 32) as int]));
}

/// The sample of the pins that a block keeps plays no part in its clocks.
pub proof fn lemma_sample_rides_along(p: Pio, sample: u32, n: nat, input: u32)
    ensures
        (Pio { input: sample, ..p }).ran(n, input) == (Pio { input: sample, ..p.ran(n, input) }),
    decreases n,
{
    if n > 0 {
        lemma_sample_rides_along(p, sample, (n - 1) as nat, input);
        let q = p.ran((n - 1) as nat, input);
        lemma_sample_rides_along_once(q, sample, 0, input);
        let q1 = q.sm_ticked(0, input);
        lemma_sample_rides_along_once(q1, sample, 1, input);
        let q2 = q1.sm_ticked(1, input);
        lemma_sample_rides_along_once(q2, sample, 2, input);
        let q3 = q2.sm_ticked(2, input);
        lemma_sample_rides_along_once(q3, sample, 3, input);
    }
}

proof fn lemma_sample_rides_along_once(p: Pio, sample: u32, n: int, input: u32)
    ensures
        (Pio { input: sample, ..p }).sm_ticked(n, input) == (Pio { input: sample, ..p.sm_ticked(n, input) }),
{
}

/// Only the low four flags reach an interrupt line; the high four never do.
pub proof fn law_high_flags_stay_inside(p: Pio, flags: u32)
    requires
        p.irq & 0xF == flags & 0xF,
    ensures
        (Pio { irq: flags, ..p }).ints0() == p.ints0(),
        (Pio { irq: flags, ..p }).ints1() == p.ints1(),
{
}

} // verus!
