//! Exception entry, exception return, and the choice of what to take.
use vstd::array::spec_array_update;
use vstd::prelude::*;

use crate::bits::{add32, sub32, wadd, wsub};
use crate::bus::model::BusState;
use crate::bus::ppb::{Ppb, ICSR_PENDSTSET, ICSR_PENDSVSET};
use crate::bus::sio::core_index;
use crate::bus::Bus;
use crate::cpu::nvic::Nvic;
use crate::cpu::registers::Registers;
use crate::cpu::{CortexM0Plus, Effect, Fault};
use crate::memory::Width;

verus! {

/// Cycles of an exception entry and of a return.
pub const ENTRY_CYCLES: u32 = 16;
pub const EXIT_CYCLES: u32 = 16;

/// The status bit that records a padded frame.
pub const XPSR_PADDED: u32 = 0x200;

pub const EXC_RETURN_HANDLER: u32 = 0xFFFF_FFF1;
pub const EXC_RETURN_THREAD_MSP: u32 = 0xFFFF_FFF9;
pub const EXC_RETURN_THREAD_PSP: u32 = 0xFFFF_FFFD;

/// Where the eight-word frame goes below a stack pointer: on a multiple of
/// eight.
pub open spec fn frame_at(sp: u32) -> u32 {
    wsub(sp, 32) & 0xFFFF_FFF8
}

/// The frame needed a word of padding.
pub open spec fn padded(sp: u32) -> bool {
    sp & 4 != 0
}

/// The word at `addr`, and the bus after reading it.
pub open spec fn word_read(bus: BusState, addr: u32) -> (u32, BusState) {
    (bus.value_at(addr, Width::Word), bus.after_read(addr, Width::Word))
}

/// The eight words of a frame written upwards from `at`.
#[verifier::opaque]
pub open spec fn frame_pushed(bus: BusState, at: u32, regs: Registers, xpsr: u32) -> BusState {
    bus.after_write(at, Width::Word, regs.r[0]).after_write(wadd(at, 4), Width::Word, regs.r[1]).after_write(
        wadd(at, 8),
        Width::Word,
        regs.r[2],
    ).after_write(wadd(at, 12), Width::Word, regs.r[3]).after_write(wadd(at, 16), Width::Word, regs.r[12]).after_write(
        wadd(at, 20),
        Width::Word,
        regs.r[14],
    ).after_write(wadd(at, 24), Width::Word, regs.r[15]).after_write(wadd(at, 28), Width::Word, xpsr)
}

/// The eight words that an exception saves.
#[derive(Clone, Copy, Debug, PartialEq, Eq, Structural)]
pub struct Frame {
    pub r0: u32,
    pub r1: u32,
    pub r2: u32,
    pub r3: u32,
    pub r12: u32,
    pub lr: u32,
    pub pc: u32,
    pub xpsr: u32,
}

/// The frame at `at`, read upwards, and the bus after reading it.
#[verifier::opaque]
pub open spec fn frame_popped(bus: BusState, at: u32) -> (Frame, BusState) {
    let (r0, b0) = word_read(bus, at);
    let (r1, b1) = word_read(b0, wadd(at, 4));
    let (r2, b2) = word_read(b1, wadd(at, 8));
    let (r3, b3) = word_read(b2, wadd(at, 12));
    let (r12, b4) = word_read(b3, wadd(at, 16));
    let (lr, b5) = word_read(b4, wadd(at, 20));
    let (pc, b6) = word_read(b5, wadd(at, 24));
    let (xpsr, b7) = word_read(b6, wadd(at, 28));
    (Frame { r0, r1, r2, r3, r12, lr, pc, xpsr }, b7)
}

fn pop_frame(bus: &mut Bus, at: u32) -> (frame: Frame)
    ensures
        frame == frame_popped(old(bus)@, at).0,
        final(bus)@ == frame_popped(old(bus)@, at).1,
{
    reveal(frame_popped);
    let r0: u32 = bus.read32(at);
    let r1: u32 = bus.read32(add32(at, 4));
    let r2: u32 = bus.read32(add32(at, 8));
    let r3: u32 = bus.read32(add32(at, 12));
    let r12: u32 = bus.read32(add32(at, 16));
    let lr: u32 = bus.read32(add32(at, 20));
    let pc: u32 = bus.read32(add32(at, 24));
    let xpsr: u32 = bus.read32(add32(at, 28));
    Frame { r0, r1, r2, r3, r12, lr, pc, xpsr }
}

impl Registers {
    /// The register file inside a handler: the frame is on the stack that
    /// was in use, the handler runs on the main stack, and the link register
    /// says how to get back.
    pub open spec fn in_exception(self, n: u32, frame: u32, vector: u32) -> Registers {
        let psp = self.uses_psp();
        let link = if self.in_handler() {
            EXC_RETURN_HANDLER
        } else if psp {
            EXC_RETURN_THREAD_PSP
        } else {
            EXC_RETURN_THREAD_MSP
        };
        let banked = if psp {
            Registers { psp: frame, ..self }
        } else {
            Registers { msp: frame, ..self }
        };
        (Registers {
            xpsr: (self.xpsr & 0xFFFF_FE00) | (n & 0x1FF),
            control: self.control & 0xFFFF_FFFD,
            ..banked
        }).with_reg(13, banked.msp).with_reg(14, link).with_reg(15, vector & 0xFFFF_FFFE)
    }

    /// The register file after a frame was taken off the stack that the
    /// return value selects.
    pub open spec fn returned(self, code: u32, at: u32, f: Frame) -> Registers {
        let sp = wadd(
            at,
            if f.xpsr & XPSR_PADDED != 0 {
                36
            } else {
                32
            },
        );
        let banked = if code == 0xD {
            Registers { psp: sp, control: self.control | 0x2, ..self }
        } else {
            Registers { msp: sp, control: self.control & 0xFFFF_FFFD, ..self }
        };
        (Registers { xpsr: f.xpsr & !XPSR_PADDED, ..banked }).with_reg(0, f.r0).with_reg(1, f.r1).with_reg(
            2,
            f.r2,
        ).with_reg(3, f.r3).with_reg(12, f.r12).with_reg(14, f.lr).with_reg(15, f.pc & 0xFFFF_FFFE).sp_unbanked()
    }

    fn enter(&mut self, n: u32, frame: u32, vector: u32)
        ensures
            *final(self) == old(self).in_exception(n, frame, vector),
    {
        let psp = self.active_sp_is_psp();
        let link: u32 = if self.ipsr() != 0 {
            EXC_RETURN_HANDLER
        } else if psp {
            EXC_RETURN_THREAD_PSP
        } else {
            EXC_RETURN_THREAD_MSP
        };
        if psp {
            self.psp = frame;
        } else {
            self.msp = frame;
        }
        self.xpsr = (self.xpsr & 0xFFFF_FE00) | (n & 0x1FF);
        self.control = self.control & 0xFFFF_FFFD;
        self.r[13] = self.msp;
        self.r[14] = link;
        self.r[15] = vector & 0xFFFF_FFFE;
    }

    fn leave(&mut self, code: u32, at: u32, f: Frame)
        ensures
            *final(self) == old(self).returned(code, at, f),
    {
        let sp: u32 = add32(at, if f.xpsr & XPSR_PADDED != 0 {
                36
            } else {
                32
            });
        if code == 0xD {
            self.psp = sp;
            self.control = self.control | 0x2;
        } else {
            self.msp = sp;
            self.control = self.control & 0xFFFF_FFFD;
        }
        self.xpsr = f.xpsr & !XPSR_PADDED;
        self.r[0] = f.r0;
        self.r[1] = f.r1;
        self.r[2] = f.r2;
        self.r[3] = f.r3;
        self.r[12] = f.r12;
        self.r[14] = f.lr;
        self.r[15] = f.pc & 0xFFFF_FFFE;
        self.sync_sp_from_banked();
    }
}

/// A pending exception that can be taken.
#[derive(Clone, Copy, Debug, PartialEq, Eq, Structural)]
pub struct Candidate {
    pub number: u32,
    pub priority: u8,
}

/// The candidate that comes first: the lower priority value, and among equals
/// the lower number.
pub open spec fn first_of(a: Option<Candidate>, b: Option<Candidate>) -> Option<Candidate> {
    match (a, b) {
        (Some(x), Some(y)) => if y.priority < x.priority || (y.priority == x.priority && y.number < x.number) {
            b
        } else {
            a
        },
        (None, _) => b,
        (_, None) => a,
    }
}

fn pick(a: Option<Candidate>, b: Option<Candidate>) -> (out: Option<Candidate>)
    ensures
        out == first_of(a, b),
{
    match a {
        None => b,
        Some(x) => match b {
            None => a,
            Some(y) => if y.priority < x.priority || (y.priority == x.priority && y.number < x.number) {
                b
            } else {
                a
            },
        },
    }
}

impl Nvic {
    /// The external interrupt to take, if any.
    pub open spec fn best(self) -> Option<Candidate> {
        if exists|i: int| self.asserts(i) {
            let i = choose|i: int| self.is_best(i);
            Some(Candidate { number: (16 + i) as u32, priority: self.priority[i] })
        } else {
            None
        }
    }

    fn best_candidate(&self) -> (out: Option<Candidate>)
        ensures
            out == self.best(),
            out matches Some(c) ==> 16 <= c.number < 48,
    {
        match self.highest_priority_pending() {
            Some((irq, prio)) => {
                proof {
                    assert(self.is_best(irq as int));
                    let i = choose|i: int| self.is_best(i);
                    crate::cpu::nvic::law_dispatch_choice_is_unique(*self, i, irq as int);
                }
                Some(Candidate { number: 16 + irq as u32, priority: prio })
            },
            None => None,
        }
    }
}

impl BusState {
    /// What core `n` would take next, masks and running handlers aside.
    pub open spec fn next_exception(self, n: int) -> Option<Candidate> {
        let p = self.ppb[n];
        let pendsv = if p.icsr & ICSR_PENDSVSET != 0 {
            Some(Candidate { number: 14, priority: p.shpr[10] })
        } else {
            None
        };
        let systick = if p.icsr & ICSR_PENDSTSET != 0 {
            Some(Candidate { number: 15, priority: p.shpr[11] })
        } else {
            None
        };
        first_of(first_of(pendsv, systick), self.nvics[n].best())
    }

    /// Its pend latch cleared.
    pub open spec fn acknowledged(self, n: int, number: u32) -> BusState {
        let p = self.ppb[n];
        if number == 14 {
            BusState {
                ppb: spec_array_update(self.ppb, n, Ppb { icsr: p.icsr & !ICSR_PENDSVSET, ..p }),
                ..self
            }
        } else if number == 15 {
            BusState {
                ppb: spec_array_update(self.ppb, n, Ppb { icsr: p.icsr & !ICSR_PENDSTSET, ..p }),
                ..self
            }
        } else {
            BusState {
                nvics: spec_array_update(
                    self.nvics,
                    n,
                    self.nvics[n].without_pending((number - 16) as u8),
                ),
                ..self
            }
        }
    }

    pub open spec fn with_ppb(self, n: int, p: Ppb) -> BusState {
        BusState { ppb: spec_array_update(self.ppb, n, p), ..self }
    }
}

impl Bus {
    fn next_pending(&self, n: usize) -> (out: Option<Candidate>)
        requires
            n < 2,
        ensures
            out == self@.next_exception(n as int),
            out matches Some(c) ==> 14 <= c.number < 48,
    {
        let pendsv = if self.ppb[n].icsr & ICSR_PENDSVSET != 0 {
            Some(Candidate { number: 14, priority: self.ppb[n].shpr[10] })
        } else {
            None
        };
        let systick = if self.ppb[n].icsr & ICSR_PENDSTSET != 0 {
            Some(Candidate { number: 15, priority: self.ppb[n].shpr[11] })
        } else {
            None
        };
        pick(pick(pendsv, systick), self.nvics[n].best_candidate())
    }

    fn acknowledge(&mut self, n: usize, number: u32)
        requires
            n < 2,
            14 <= number < 48,
        ensures
            final(self)@ == old(self)@.acknowledged(n as int, number),
    {
        if number == 14 {
            self.ppb[n].icsr = self.ppb[n].icsr & !ICSR_PENDSVSET;
        } else if number == 15 {
            self.ppb[n].icsr = self.ppb[n].icsr & !ICSR_PENDSTSET;
        } else {
            self.nvics[n].clear_pending((number - 16) as u8);
        }
    }
}

impl CortexM0Plus {
    /// This core's place in the per-core arrays.
    pub open spec fn id(self) -> int {
        core_index(self.core_id)
    }

    pub fn index(&self) -> (n: usize)
        ensures
            n == self.id(),
            n < 2,
    {
        if self.core_id == 0 {
            0
        } else {
            1
        }
    }

    /// Exception `n` taken. A hard fault inside the hard fault handler, or
    /// with no Thumb handler, locks the core up; any other exception with no
    /// Thumb handler becomes a hard fault in waiting.
    #[verifier::opaque]
    pub open spec fn entered(self, bus: BusState, n: u32) -> Effect {
        if n == 3 && self.regs.exception_number() == 3 {
            Effect { cpu: CortexM0Plus { halted: true, ..self }, bus, cycles: 0 }
        } else {
            let (vector, bus1) = word_read(
                bus,
                wadd(bus.ppb[self.id()].vtor, ((4 * n) % 0x1_0000_0000) as u32),
            );
            if vector & 1 == 0 {
                if n == 3 {
                    Effect { cpu: CortexM0Plus { halted: true, ..self }, bus: bus1, cycles: ENTRY_CYCLES }
                } else {
                    Effect { cpu: self.with_fault(Fault::HardFault), bus: bus1, cycles: ENTRY_CYCLES }
                }
            } else {
                let regs = self.regs.sp_banked();
                let sp = regs.r[13];
                let frame = frame_at(sp);
                let xpsr = (regs.xpsr & !XPSR_PADDED) | (if padded(sp) {
                    XPSR_PADDED
                } else {
                    0
                });
                let bus2 = frame_pushed(bus1, frame, regs, xpsr);
                Effect {
                    cpu: self.with_regs(regs.in_exception(n, frame, vector)),
                    bus: bus2.with_ppb(self.id(), bus2.ppb[self.id()].with_active(n)),
                    cycles: ENTRY_CYCLES,
                }
            }
        }
    }

    /// The exception to take now: none while interrupts are masked or a
    /// handler is running.
    pub open spec fn takes(self, bus: BusState) -> Option<Candidate> {
        if self.regs.primask & 1 != 0 || bus.ppb[self.id()].active != 0 {
            None
        } else {
            bus.next_exception(self.id())
        }
    }

    /// The pending exception that is due, taken; nothing where none is.
    #[verifier::opaque]
    pub open spec fn dispatched(self, bus: BusState) -> Effect {
        match self.takes(bus) {
            Some(c) => self.entered(bus.acknowledged(self.id(), c.number), c.number),
            None => self.took(bus, 0),
        }
    }

    /// The core and the bus after a frame has come off the stack that a
    /// return value selects.
    #[verifier::opaque]
    pub open spec fn unwound(self, bus: BusState, exc_return: u32) -> (CortexM0Plus, BusState) {
        let code = exc_return & 0xF;
        let regs = self.regs.sp_banked();
        let bus1 = bus.with_ppb(self.id(), bus.ppb[self.id()].without_active(regs.exception_number()));
        let at = if code == 0xD {
            regs.psp
        } else {
            regs.msp
        };
        let (frame, bus2) = frame_popped(bus1, at);
        (self.with_regs(regs.returned(code, at, frame)), bus2)
    }

    /// Return from an exception. The frame comes off the stack, and then
    /// whatever is pending is taken at once.
    #[verifier::opaque]
    pub open spec fn exited(self, bus: BusState, exc_return: u32) -> Effect {
        let code = exc_return & 0xF;
        if code != 1 && code != 9 && code != 0xD {
            self.with_fault(Fault::InvalidExcReturn).took(bus, 1)
        } else {
            let (cpu, bus1) = self.unwound(bus, exc_return);
            let after = cpu.dispatched(bus1);
            Effect { cycles: (EXIT_CYCLES + after.cycles) as u32, ..after }
        }
    }

    /// The handler that a fault goes to.
    pub open spec fn fault_number(self, f: Fault) -> u32 {
        if f == Fault::Svc && self.regs.primask & 1 == 0 {
            11
        } else {
            3
        }
    }

    fn push_frame(&self, bus: &mut Bus, at: u32, xpsr: u32)
        ensures
            final(bus)@ == frame_pushed(old(bus)@, at, self.regs, xpsr),
    {
        reveal(frame_pushed);
        bus.write32(at, self.regs.r[0]);
        bus.write32(add32(at, 4), self.regs.r[1]);
        bus.write32(add32(at, 8), self.regs.r[2]);
        bus.write32(add32(at, 12), self.regs.r[3]);
        bus.write32(add32(at, 16), self.regs.r[12]);
        bus.write32(add32(at, 20), self.regs.r[14]);
        bus.write32(add32(at, 24), self.regs.r[15]);
        bus.write32(add32(at, 28), xpsr);
    }

    /// Takes exception `n` and returns the cycles it cost.
    pub fn enter_exception(&mut self, n: u32, bus: &mut Bus) -> (cycles: u32)
        ensures
            (Effect { cpu: *final(self), bus: final(bus)@, cycles }) == old(self).entered(old(bus)@, n),
            cycles <= ENTRY_CYCLES,
    {
        reveal(CortexM0Plus::entered);
        if n == 3 && self.regs.ipsr() == 3 {
            self.halted = true;
            return 0;
        }
        let id: usize = self.index();
        let vector: u32 = bus.read32(add32(bus.ppb[id].vtor, n.wrapping_mul(4)));
        if vector & 1 == 0 {
            if n == 3 {
                self.halted = true;
            } else {
                self.pending_fault = Some(Fault::HardFault);
            }
            return ENTRY_CYCLES;
        }
        self.regs.sync_sp_to_banked();
        let sp: u32 = self.regs.r[13];
        let frame: u32 = sub32(sp, 32) & 0xFFFF_FFF8;
        let xpsr: u32 = (self.regs.xpsr & !XPSR_PADDED) | (if sp & 4 != 0 {
            XPSR_PADDED
        } else {
            0
        });
        self.push_frame(bus, frame, xpsr);
        self.regs.enter(n, frame, vector);
        bus.ppb[id].mark_active(n);
        ENTRY_CYCLES
    }

    /// Takes the pending exception that is due; zero cycles where none is.
    pub fn try_take_any_pending_exception(&mut self, bus: &mut Bus) -> (cycles: u32)
        ensures
            (Effect { cpu: *final(self), bus: final(bus)@, cycles }) == old(self).dispatched(old(bus)@),
            cycles <= ENTRY_CYCLES,
    {
        reveal(CortexM0Plus::dispatched);
        let id: usize = self.index();
        if self.regs.primask & 1 != 0 || bus.ppb[id].any_active() {
            return 0;
        }
        match bus.next_pending(id) {
            Some(c) => {
                bus.acknowledge(id, c.number);
                self.enter_exception(c.number, bus)
            },
            None => 0,
        }
    }

    /// Returns from an exception and takes the next one if one is due.
    pub fn exit_exception(&mut self, exc_return: u32, bus: &mut Bus) -> (cycles: u32)
        ensures
            (Effect { cpu: *final(self), bus: final(bus)@, cycles }) == old(self).exited(old(bus)@, exc_return),
            cycles <= EXIT_CYCLES + ENTRY_CYCLES,
    {
        reveal(CortexM0Plus::exited);
        reveal(CortexM0Plus::unwound);
        let code: u32 = exc_return & 0xF;
        if code != 1 && code != 9 && code != 0xD {
            self.pending_fault = Some(Fault::InvalidExcReturn);
            return 1;
        }
        let id: usize = self.index();
        self.regs.sync_sp_to_banked();
        bus.ppb[id].clear_active(self.regs.ipsr());
        let at: u32 = if code == 0xD {
            self.regs.psp
        } else {
            self.regs.msp
        };
        let frame = pop_frame(bus, at);
        self.regs.leave(code, at, frame);
        EXIT_CYCLES + self.try_take_any_pending_exception(bus)
    }

    /// Takes the exception that a fault calls for.
    pub fn deliver_fault(&mut self, fault: Fault, bus: &mut Bus) -> (cycles: u32)
        ensures
            (Effect { cpu: *final(self), bus: final(bus)@, cycles }) == old(self).entered(
                old(bus)@,
                old(self).fault_number(fault),
            ),
            cycles <= ENTRY_CYCLES,
    {
        let n: u32 = match fault {
            Fault::Svc => if self.regs.primask & 1 == 0 {
                11
            } else {
                3
            },
            _ => 3,
        };
        self.enter_exception(n, bus)
    }

    pub fn test_enter_exception(&mut self, n: u32, bus: &mut Bus) -> (cycles: u32)
        ensures
            (Effect { cpu: *final(self), bus: final(bus)@, cycles }) == old(self).entered(old(bus)@, n),
    {
        self.enter_exception(n, bus)
    }

    pub fn test_exit_exception(&mut self, exc_return: u32, bus: &mut Bus) -> (cycles: u32)
        ensures
            (Effect { cpu: *final(self), bus: final(bus)@, cycles }) == old(self).exited(old(bus)@, exc_return),
    {
        self.exit_exception(exc_return, bus)
    }
}

} // verus!
