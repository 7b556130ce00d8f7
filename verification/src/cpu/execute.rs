//! The 16-bit instructions.
use vstd::array::spec_array_update;
use vstd::prelude::*;

use crate::bits::{add32, bit, sub32, test_bit, wadd, word, wsub};
use crate::bus::model::BusState;
use crate::bus::Bus;
use crate::cpu::alu::{complement, extend16, extend8, sign_extend16, sign_extend8, subtract, sum};
use crate::cpu::registers::Registers;
use crate::cpu::{CortexM0Plus, Effect, Fault};
use crate::memory::{narrowed, Width};

verus! {

/// The most cycles that one instruction can spend: eight registers and the
/// program counter popped, a handler left and the next one entered.
pub const MAX_CYCLES: u32 = 42;

/// A number of `w` bytes read as signed or unsigned and widened.
pub open spec fn widened(v: u32, w: Width, is_signed: bool) -> u32 {
    if !is_signed {
        v
    } else {
        match w {
            Width::Byte => sign_extend8(v),
            Width::Half => sign_extend16(v),
            Width::Word => v,
        }
    }
}

/// An access of width `w` at `addr` is not on a multiple of its size.
pub open spec fn misaligned(addr: u32, w: Width) -> bool {
    match w {
        Width::Byte => false,
        Width::Half => addr % 2 != 0,
        Width::Word => addr % 4 != 0,
    }
}

fn is_misaligned(addr: u32, w: Width) -> (out: bool)
    ensures
        out == misaligned(addr, w),
{
    match w {
        Width::Byte => false,
        Width::Half => addr % 2 != 0,
        Width::Word => addr % 4 != 0,
    }
}

fn narrow(v: u32, w: Width) -> (out: u32)
    ensures
        out == narrowed(v, w),
{
    match w {
        Width::Byte => v % 0x100,
        Width::Half => v % 0x1_0000,
        Width::Word => v,
    }
}

fn widen(v: u32, w: Width, is_signed: bool) -> (out: u32)
    ensures
        out == widened(v, w, is_signed),
{
    if !is_signed {
        v
    } else {
        match w {
            Width::Byte => extend8(v),
            Width::Half => extend16(v),
            Width::Word => v,
        }
    }
}

/// How many of the `n` lowest registers a list names.
pub open spec fn named_upto(list: u32, n: nat) -> nat
    decreases n,
{
    if n == 0 {
        0
    } else {
        named_upto(list, (n - 1) as nat) + (if bit(list, n - 1) {
            1nat
        } else {
            0nat
        })
    }
}

fn count_named(list: u32) -> (out: u32)
    ensures
        out == named_upto(list, 8),
        out <= 8,
{
    let mut n: u32 = 0;
    let mut count: u32 = 0;
    while n < 8
        invariant
            n <= 8,
            count <= n,
            count == named_upto(list, n as nat),
        decreases 8 - n,
    {
        if test_bit(list, n) {
            count += 1;
        }
        n += 1;
    }
    count
}

/// The named registers among the `n` lowest stored upwards from `addr`: the
/// bus, and the address after the last.
pub open spec fn list_stored(bus: BusState, regs: Registers, list: u32, addr: u32, n: nat) -> (BusState, u32)
    decreases n,
{
    if n == 0 {
        (bus, addr)
    } else {
        let (b, a) = list_stored(bus, regs, list, addr, (n - 1) as nat);
        if bit(list, n - 1) {
            (b.after_write(a, Width::Word, regs.r[n - 1]), wadd(a, 4))
        } else {
            (b, a)
        }
    }
}

/// The named registers among the `n` lowest loaded upwards from `addr`.
pub open spec fn list_loaded(bus: BusState, regs: Registers, list: u32, addr: u32, n: nat) -> (
    Registers,
    BusState,
    u32,
)
    decreases n,
{
    if n == 0 {
        (regs, bus, addr)
    } else {
        let (r, b, a) = list_loaded(bus, regs, list, addr, (n - 1) as nat);
        if bit(list, n - 1) {
            (
                r.with_reg(n - 1, b.value_at(a, Width::Word)),
                b.after_read(a, Width::Word),
                wadd(a, 4),
            )
        } else {
            (r, b, a)
        }
    }
}

impl CortexM0Plus {
    /// A load into register `rd`.
    #[verifier::opaque]
    pub open spec fn loaded(self, bus: BusState, addr: u32, w: Width, is_signed: bool, rd: int) -> Effect {
        if misaligned(addr, w) {
            self.with_fault(Fault::Unaligned).took(bus, 1)
        } else {
            self.with_regs(self.regs.with_reg(rd, widened(bus.value_at(addr, w), w, is_signed))).took(
                bus.after_read(addr, w),
                2,
            )
        }
    }

    fn load(&mut self, bus: &mut Bus, addr: u32, w: Width, is_signed: bool, rd: usize) -> (cycles: u32)
        requires
            rd < 16,
        ensures
            (Effect { cpu: *final(self), bus: final(bus)@, cycles }) == old(self).loaded(
                old(bus)@,
                addr,
                w,
                is_signed,
                rd as int,
            ),
            cycles <= MAX_CYCLES,
    {
        reveal(CortexM0Plus::loaded);
        if is_misaligned(addr, w) {
            self.pending_fault = Some(Fault::Unaligned);
            return 1;
        }
        let v: u32 = bus.read(addr, w);
        self.regs.r[rd] = widen(v, w, is_signed);
        2
    }

    /// A store of the low bytes of `val`.
    #[verifier::opaque]
    pub open spec fn stored(self, bus: BusState, addr: u32, w: Width, val: u32) -> Effect {
        if misaligned(addr, w) {
            self.with_fault(Fault::Unaligned).took(bus, 1)
        } else {
            self.took(bus.after_write(addr, w, narrowed(val, w)), 2)
        }
    }

    fn store(&mut self, bus: &mut Bus, addr: u32, w: Width, val: u32) -> (cycles: u32)
        ensures
            (Effect { cpu: *final(self), bus: final(bus)@, cycles }) == old(self).stored(
                old(bus)@,
                addr,
                w,
                val,
            ),
            cycles <= MAX_CYCLES,
    {
        reveal(CortexM0Plus::stored);
        if is_misaligned(addr, w) {
            self.pending_fault = Some(Fault::Unaligned);
            return 1;
        }
        bus.write(addr, w, narrow(val, w));
        2
    }

    /// A branch that can change state: inside a handler the return values
    /// leave it, elsewhere the lowest bit must be set.
    #[verifier::opaque]
    pub open spec fn interworked(self, bus: BusState, target: u32, cycles: u32) -> Effect {
        if self.regs.in_handler() && target >= 0xFFFF_FFF0 {
            let e = self.exited(bus, target);
            Effect { cycles: (e.cycles + cycles) as u32, ..e }
        } else if target % 2 == 0 {
            self.with_fault(Fault::InvalidEpsr).took(bus, (cycles + 1) as u32)
        } else {
            self.with_regs(self.regs.branched(target)).took(bus, (cycles + 3) as u32)
        }
    }

    fn interwork(&mut self, bus: &mut Bus, target: u32, cycles: u32) -> (total: u32)
        requires
            cycles <= 10,
        ensures
            (Effect { cpu: *final(self), bus: final(bus)@, cycles: total }) == old(self).interworked(
                old(bus)@,
                target,
                cycles,
            ),
            total <= MAX_CYCLES,
    {
        reveal(CortexM0Plus::interworked);
        if self.regs.ipsr() != 0 && target >= 0xFFFF_FFF0 {
            return self.exit_exception(target, bus) + cycles;
        }
        if target % 2 == 0 {
            self.pending_fault = Some(Fault::InvalidEpsr);
            return cycles + 1;
        }
        self.regs.r[15] = target & 0xFFFF_FFFE;
        cycles + 3
    }

    /// Add, compare and move on all registers, and the two register
    /// branches.
    #[verifier::opaque]
    pub open spec fn special(self, bus: BusState, op: u16) -> Effect {
        let rd = (op % 8 + 8 * (op / 128 % 2)) as int;
        let m = self.operand((op / 8 % 16) as int);
        let kind = op / 0x100 % 4;
        if kind == 0 {
            let v = wadd(self.operand(rd), m);
            if rd == 15 {
                self.with_regs(self.regs.branched(v)).took(bus, 3)
            } else {
                self.with_regs(self.regs.with_reg(rd, v)).took(bus, 1)
            }
        } else if kind == 1 {
            self.with_regs(self.regs.with_sum_flags(sum(self.operand(rd), complement(m), true))).took(bus, 1)
        } else if kind == 2 {
            if rd == 15 {
                self.with_regs(self.regs.branched(m)).took(bus, 3)
            } else {
                self.with_regs(self.regs.with_reg(rd, m)).took(bus, 1)
            }
        } else if op / 128 % 2 == 0 || m % 2 == 0 {
            self.interworked(bus, m, 0)
        } else {
            self.with_regs(
                self.regs.with_reg(14, wadd(self.current_instr_addr, 2) | 1).branched(m),
            ).took(bus, 3)
        }
    }

    fn read_operand(&self, i: usize) -> (out: u32)
        requires
            i < 16,
        ensures
            out == self.operand(i as int),
    {
        if i == 15 {
            self.read_pc()
        } else {
            self.regs.r[i]
        }
    }

    fn run_special(&mut self, op: u16, bus: &mut Bus) -> (cycles: u32)
        ensures
            (Effect { cpu: *final(self), bus: final(bus)@, cycles }) == old(self).special(old(bus)@, op),
            cycles <= MAX_CYCLES,
    {
        reveal(CortexM0Plus::special);
        let rd: usize = (op % 8 + 8 * (op / 128 % 2)) as usize;
        let m: u32 = self.read_operand((op / 8 % 16) as usize);
        match op / 0x100 % 4 {
            0 => {
                let v: u32 = add32(self.read_operand(rd), m);
                if rd == 15 {
                    self.regs.r[15] = v & 0xFFFF_FFFE;
                    3
                } else {
                    self.regs.r[rd] = v;
                    1
                }
            },
            1 => {
                let n: u32 = self.read_operand(rd);
                self.regs.set_sum_flags(subtract(n, m));
                1
            },
            2 => {
                if rd == 15 {
                    self.regs.r[15] = m & 0xFFFF_FFFE;
                    3
                } else {
                    self.regs.r[rd] = m;
                    1
                }
            },
            _ => {
                if op / 128 % 2 == 0 || m % 2 == 0 {
                    self.interwork(bus, m, 0)
                } else {
                    self.regs.r[14] = add32(self.current_instr_addr, 2) | 1;
                    self.regs.r[15] = m & 0xFFFF_FFFE;
                    3
                }
            },
        }
    }

    /// Loads and stores at the sum of two registers.
    #[verifier::opaque]
    pub open spec fn ls_register(self, bus: BusState, op: u16) -> Effect {
        let rt = (op % 8) as int;
        let addr = wadd(self.regs.r[(op / 8 % 8) as int], self.regs.r[(op / 64 % 8) as int]);
        let val = self.regs.r[rt];
        let kind = op / 0x200 % 8;
        if kind == 0 {
            self.stored(bus, addr, Width::Word, val)
        } else if kind == 1 {
            self.stored(bus, addr, Width::Half, val)
        } else if kind == 2 {
            self.stored(bus, addr, Width::Byte, val)
        } else if kind == 3 {
            self.loaded(bus, addr, Width::Byte, true, rt)
        } else if kind == 4 {
            self.loaded(bus, addr, Width::Word, false, rt)
        } else if kind == 5 {
            self.loaded(bus, addr, Width::Half, false, rt)
        } else if kind == 6 {
            self.loaded(bus, addr, Width::Byte, false, rt)
        } else {
            self.loaded(bus, addr, Width::Half, true, rt)
        }
    }

    fn run_ls_register(&mut self, op: u16, bus: &mut Bus) -> (cycles: u32)
        ensures
            (Effect { cpu: *final(self), bus: final(bus)@, cycles }) == old(self).ls_register(old(bus)@, op),
            cycles <= MAX_CYCLES,
    {
        reveal(CortexM0Plus::ls_register);
        let rt: usize = (op % 8) as usize;
        let addr: u32 = add32(self.regs.r[(op / 8 % 8) as usize], self.regs.r[(op / 64 % 8) as usize]);
        let val: u32 = self.regs.r[rt];
        match op / 0x200 % 8 {
            0 => self.store(bus, addr, Width::Word, val),
            1 => self.store(bus, addr, Width::Half, val),
            2 => self.store(bus, addr, Width::Byte, val),
            3 => self.load(bus, addr, Width::Byte, true, rt),
            4 => self.load(bus, addr, Width::Word, false, rt),
            5 => self.load(bus, addr, Width::Half, false, rt),
            6 => self.load(bus, addr, Width::Byte, false, rt),
            _ => self.load(bus, addr, Width::Half, true, rt),
        }
    }

    /// Loads and stores at a register plus a scaled immediate; the group is
    /// the instruction's top five bits.
    #[verifier::opaque]
    pub open spec fn ls_immediate(self, bus: BusState, op: u16) -> Effect {
        let group = op / 0x800;
        let rt = (op % 8) as int;
        let base = self.regs.r[(op / 8 % 8) as int];
        let imm5 = (op / 64 % 32) as u32;
        let val = self.regs.r[rt];
        if group == 0b01100 {
            self.stored(bus, wadd(base, (4 * imm5) as u32), Width::Word, val)
        } else if group == 0b01101 {
            self.loaded(bus, wadd(base, (4 * imm5) as u32), Width::Word, false, rt)
        } else if group == 0b01110 {
            self.stored(bus, wadd(base, imm5), Width::Byte, val)
        } else if group == 0b01111 {
            self.loaded(bus, wadd(base, imm5), Width::Byte, false, rt)
        } else if group == 0b10000 {
            self.stored(bus, wadd(base, (2 * imm5) as u32), Width::Half, val)
        } else {
            self.loaded(bus, wadd(base, (2 * imm5) as u32), Width::Half, false, rt)
        }
    }

    fn run_ls_immediate(&mut self, op: u16, bus: &mut Bus) -> (cycles: u32)
        ensures
            (Effect { cpu: *final(self), bus: final(bus)@, cycles }) == old(self).ls_immediate(old(bus)@, op),
            cycles <= MAX_CYCLES,
    {
        reveal(CortexM0Plus::ls_immediate);
        let rt: usize = (op % 8) as usize;
        let base: u32 = self.regs.r[(op / 8 % 8) as usize];
        let imm5: u32 = (op / 64 % 32) as u32;
        let val: u32 = self.regs.r[rt];
        match op / 0x800 {
            0b01100 => self.store(bus, add32(base, 4 * imm5), Width::Word, val),
            0b01101 => self.load(bus, add32(base, 4 * imm5), Width::Word, false, rt),
            0b01110 => self.store(bus, add32(base, imm5), Width::Byte, val),
            0b01111 => self.load(bus, add32(base, imm5), Width::Byte, false, rt),
            0b10000 => self.store(bus, add32(base, 2 * imm5), Width::Half, val),
            _ => self.load(bus, add32(base, 2 * imm5), Width::Half, false, rt),
        }
    }

    /// Words at the program counter or the stack pointer plus an immediate,
    /// and the sums themselves.
    #[verifier::opaque]
    pub open spec fn relative(self, bus: BusState, op: u16) -> Effect {
        let group = op / 0x800;
        let rt = (op / 0x100 % 8) as int;
        let imm = (4 * (op % 0x100)) as u32;
        let pc = (self.pc_value() / 4 * 4) as u32;
        let sp = self.regs.r[13];
        if group == 0b01001 {
            self.loaded(bus, wadd(pc, imm), Width::Word, false, rt)
        } else if group == 0b10010 {
            self.stored(bus, wadd(sp, imm), Width::Word, self.regs.r[rt])
        } else if group == 0b10011 {
            self.loaded(bus, wadd(sp, imm), Width::Word, false, rt)
        } else if group == 0b10100 {
            self.with_regs(self.regs.with_reg(rt, wadd(pc, imm))).took(bus, 1)
        } else {
            self.with_regs(self.regs.with_reg(rt, wadd(sp, imm))).took(bus, 1)
        }
    }

    fn run_relative(&mut self, op: u16, bus: &mut Bus) -> (cycles: u32)
        ensures
            (Effect { cpu: *final(self), bus: final(bus)@, cycles }) == old(self).relative(old(bus)@, op),
            cycles <= MAX_CYCLES,
    {
        reveal(CortexM0Plus::relative);
        let rt: usize = (op / 0x100 % 8) as usize;
        let imm: u32 = 4 * (op % 0x100) as u32;
        let pc: u32 = self.read_pc() / 4 * 4;
        let sp: u32 = self.regs.r[13];
        match op / 0x800 {
            0b01001 => self.load(bus, add32(pc, imm), Width::Word, false, rt),
            0b10010 => {
                let val: u32 = self.regs.r[rt];
                self.store(bus, add32(sp, imm), Width::Word, val)
            },
            0b10011 => self.load(bus, add32(sp, imm), Width::Word, false, rt),
            0b10100 => {
                self.regs.r[rt] = add32(pc, imm);
                1
            },
            _ => {
                self.regs.r[rt] = add32(sp, imm);
                1
            },
        }
    }

    fn store_list(&self, bus: &mut Bus, list: u32, addr: u32) -> (end: u32)
        ensures
            final(bus)@ == list_stored(old(bus)@, self.regs, list, addr, 8).0,
            end == list_stored(old(bus)@, self.regs, list, addr, 8).1,
    {
        let ghost before = bus@;
        let mut at: u32 = addr;
        let mut n: usize = 0;
        while n < 8
            invariant
                n <= 8,
                (bus@, at) == list_stored(before, self.regs, list, addr, n as nat),
            decreases 8 - n,
        {
            if test_bit(list, n as u32) {
                bus.write32(at, self.regs.r[n]);
                at = add32(at, 4);
            }
            n += 1;
        }
        at
    }

    fn load_list(&mut self, bus: &mut Bus, list: u32, addr: u32) -> (end: u32)
        ensures
            *final(self) == old(self).with_regs(
                list_loaded(old(bus)@, old(self).regs, list, addr, 8).0,
            ),
            final(bus)@ == list_loaded(old(bus)@, old(self).regs, list, addr, 8).1,
            end == list_loaded(old(bus)@, old(self).regs, list, addr, 8).2,
    {
        let ghost before = bus@;
        let ghost start = *self;
        let mut at: u32 = addr;
        let mut n: usize = 0;
        while n < 8
            invariant
                n <= 8,
                *self == start.with_regs(self.regs),
                (self.regs, bus@, at) == list_loaded(before, start.regs, list, addr, n as nat),
            decreases 8 - n,
        {
            if test_bit(list, n as u32) {
                self.regs.r[n] = bus.read32(at);
                at = add32(at, 4);
            }
            n += 1;
        }
        at
    }

    /// `push`: the named low registers, then the link register, below the
    /// stack pointer.
    #[verifier::opaque]
    pub open spec fn push(self, bus: BusState, op: u16) -> Effect {
        let list = (op % 0x100) as u32;
        let with_lr = op / 0x100 % 2 == 1;
        let count = named_upto(list, 8) + (if with_lr {
            1nat
        } else {
            0nat
        });
        let base = wsub(self.regs.r[13], (4 * count) as u32);
        if base % 4 != 0 {
            self.with_fault(Fault::Unaligned).took(bus, 1)
        } else {
            let (b, a) = list_stored(bus, self.regs, list, base, 8);
            self.with_regs(self.regs.with_reg(13, base)).took(
                if with_lr {
                    b.after_write(a, Width::Word, self.regs.r[14])
                } else {
                    b
                },
                (1 + count) as u32,
            )
        }
    }

    fn run_push(&mut self, op: u16, bus: &mut Bus) -> (cycles: u32)
        ensures
            (Effect { cpu: *final(self), bus: final(bus)@, cycles }) == old(self).push(old(bus)@, op),
            cycles <= MAX_CYCLES,
    {
        reveal(CortexM0Plus::push);
        let list: u32 = (op % 0x100) as u32;
        let with_lr = op / 0x100 % 2 == 1;
        let count: u32 = count_named(list) + (if with_lr {
            1u32
        } else {
            0u32
        });
        let base: u32 = sub32(self.regs.r[13], 4 * count);
        if base % 4 != 0 {
            self.pending_fault = Some(Fault::Unaligned);
            return 1;
        }
        let end: u32 = self.store_list(bus, list, base);
        if with_lr {
            bus.write32(end, self.regs.r[14]);
        }
        self.regs.r[13] = base;
        1 + count
    }

    /// `pop`: the named low registers, then the program counter, from the
    /// stack pointer up.
    #[verifier::opaque]
    pub open spec fn pop(self, bus: BusState, op: u16) -> Effect {
        let list = (op % 0x100) as u32;
        let count = named_upto(list, 8);
        let base = self.regs.r[13];
        if base % 4 != 0 {
            self.with_fault(Fault::Unaligned).took(bus, 1)
        } else {
            let (r, b, a) = list_loaded(bus, self.regs, list, base, 8);
            if op / 0x100 % 2 == 1 {
                self.with_regs(r.with_reg(13, wadd(a, 4))).interworked(
                    b.after_read(a, Width::Word),
                    b.value_at(a, Width::Word),
                    (2 + count) as u32,
                )
            } else {
                self.with_regs(r.with_reg(13, a)).took(b, (1 + count) as u32)
            }
        }
    }

    fn run_pop(&mut self, op: u16, bus: &mut Bus) -> (cycles: u32)
        ensures
            (Effect { cpu: *final(self), bus: final(bus)@, cycles }) == old(self).pop(old(bus)@, op),
            cycles <= MAX_CYCLES,
    {
        reveal(CortexM0Plus::pop);
        let list: u32 = (op % 0x100) as u32;
        let count: u32 = count_named(list);
        let base: u32 = self.regs.r[13];
        if base % 4 != 0 {
            self.pending_fault = Some(Fault::Unaligned);
            return 1;
        }
        let end: u32 = self.load_list(bus, list, base);
        if op / 0x100 % 2 == 1 {
            let target: u32 = bus.read32(end);
            self.regs.r[13] = add32(end, 4);
            self.interwork(bus, target, 2 + count)
        } else {
            self.regs.r[13] = end;
            1 + count
        }
    }

    /// `stm` writes its base back; `ldm` does too, unless it loaded it.
    #[verifier::opaque]
    pub open spec fn multiple(self, bus: BusState, op: u16) -> Effect {
        let list = (op % 0x100) as u32;
        let rn = (op / 0x100 % 8) as int;
        let base = self.regs.r[rn];
        let cycles = (1 + named_upto(list, 8)) as u32;
        if base % 4 != 0 {
            self.with_fault(Fault::Unaligned).took(bus, 1)
        } else if op / 0x800 % 2 == 0 {
            let (b, a) = list_stored(bus, self.regs, list, base, 8);
            self.with_regs(self.regs.with_reg(rn, a)).took(b, cycles)
        } else {
            let (r, b, a) = list_loaded(bus, self.regs, list, base, 8);
            self.with_regs(
                if bit(list, rn) {
                    r
                } else {
                    r.with_reg(rn, a)
                },
            ).took(b, cycles)
        }
    }

    fn run_multiple(&mut self, op: u16, bus: &mut Bus) -> (cycles: u32)
        ensures
            (Effect { cpu: *final(self), bus: final(bus)@, cycles }) == old(self).multiple(old(bus)@, op),
            cycles <= MAX_CYCLES,
    {
        reveal(CortexM0Plus::multiple);
        let list: u32 = (op % 0x100) as u32;
        let rn: usize = (op / 0x100 % 8) as usize;
        let base: u32 = self.regs.r[rn];
        if base % 4 != 0 {
            self.pending_fault = Some(Fault::Unaligned);
            return 1;
        }
        if op / 0x800 % 2 == 0 {
            let end: u32 = self.store_list(bus, list, base);
            self.regs.r[rn] = end;
        } else {
            let end: u32 = self.load_list(bus, list, base);
            if !test_bit(list, rn as u32) {
                self.regs.r[rn] = end;
            }
        }
        1 + count_named(list)
    }

    /// The hints. Waiting for an event takes a latched one or parks the core;
    /// waiting for an interrupt stops the core unless one is pending. The
    /// other encodings of the group are undefined.
    #[verifier::opaque]
    pub open spec fn hint(self, bus: BusState, op: u16) -> Effect {
        let n = self.id();
        let kind = op / 16 % 16;
        if op % 16 != 0 {
            self.with_fault(Fault::Undefined).took(bus, 1)
        } else if kind == 2 {
            if bus.event_flag[n] {
                self.took(
                    BusState { event_flag: spec_array_update(bus.event_flag, n, false), ..bus },
                    1,
                )
            } else {
                self.took(
                    BusState { wfe_waiting: spec_array_update(bus.wfe_waiting, n, true), ..bus },
                    1,
                )
            }
        } else if kind == 3 {
            (CortexM0Plus {
                halted: self.halted || bus.nvics[n].pending & bus.nvics[n].enabled == 0,
                ..self
            }).took(bus, 1)
        } else if kind == 4 {
            self.took(
                BusState {
                    event_flag: spec_array_update(spec_array_update(bus.event_flag, 0, true), 1, true),
                    ..bus
                },
                1,
            )
        } else {
            self.took(bus, 1)
        }
    }

    fn run_hint(&mut self, op: u16, bus: &mut Bus) -> (cycles: u32)
        ensures
            (Effect { cpu: *final(self), bus: final(bus)@, cycles }) == old(self).hint(old(bus)@, op),
            cycles <= MAX_CYCLES,
    {
        reveal(CortexM0Plus::hint);
        if op % 16 != 0 {
            self.pending_fault = Some(Fault::Undefined);
            return 1;
        }
        let n: usize = self.index();
        match op / 16 % 16 {
            2 => {
                if bus.event_flag[n] {
                    bus.event_flag[n] = false;
                } else {
                    bus.wfe_waiting[n] = true;
                }
            },
            3 => {
                if bus.nvics[n].pending_and_enabled() == 0 {
                    self.halted = true;
                }
            },
            4 => {
                bus.signal_sev();
            },
            _ => {},
        }
        1
    }

    /// The miscellaneous group, by its second digit.
    #[verifier::opaque]
    pub open spec fn misc(self, bus: BusState, op: u16) -> Effect {
        let kind = op / 0x100 % 16;
        let imm = (4 * (op % 128)) as u32;
        let sp = self.regs.r[13];
        if kind == 0b0000 {
            if op / 128 % 2 == 0 {
                self.with_regs(self.regs.with_reg(13, wadd(sp, imm))).took(bus, 1)
            } else {
                self.with_regs(self.regs.with_reg(13, wsub(sp, imm))).took(bus, 1)
            }
        } else if kind == 0b0010 {
            self.with_regs(self.regs.after_extend(op)).took(bus, 1)
        } else if kind == 0b0100 || kind == 0b0101 {
            self.push(bus, op)
        } else if kind == 0b0110 && op / 32 % 8 == 3 {
            if op / 2 % 2 == 1 {
                self.with_regs(Registers { primask: (op / 16 % 2) as u32, ..self.regs }).took(bus, 1)
            } else {
                self.took(bus, 1)
            }
        } else if kind == 0b1010 && op / 64 % 4 != 2 {
            self.with_regs(self.regs.after_reverse(op)).took(bus, 1)
        } else if kind == 0b1100 || kind == 0b1101 {
            self.pop(bus, op)
        } else if kind == 0b1110 {
            self.with_fault(Fault::Breakpoint).took(bus, 1)
        } else if kind == 0b1111 {
            self.hint(bus, op)
        } else {
            self.with_fault(Fault::Undefined).took(bus, 1)
        }
    }

    fn run_misc(&mut self, op: u16, bus: &mut Bus) -> (cycles: u32)
        ensures
            (Effect { cpu: *final(self), bus: final(bus)@, cycles }) == old(self).misc(old(bus)@, op),
            cycles <= MAX_CYCLES,
    {
        reveal(CortexM0Plus::misc);
        let imm: u32 = 4 * (op % 128) as u32;
        let sp: u32 = self.regs.r[13];
        match op / 0x100 % 16 {
            0b0000 => {
                self.regs.r[13] = if op / 128 % 2 == 0 {
                    add32(sp, imm)
                } else {
                    sub32(sp, imm)
                };
                1
            },
            0b0010 => {
                self.regs.extend(op);
                1
            },
            0b0100 | 0b0101 => self.run_push(op, bus),
            0b0110 => {
                if op / 32 % 8 != 3 {
                    self.pending_fault = Some(Fault::Undefined);
                } else if op / 2 % 2 == 1 {
                    self.regs.primask = (op / 16 % 2) as u32;
                }
                1
            },
            0b1010 => {
                if op / 64 % 4 == 2 {
                    self.pending_fault = Some(Fault::Undefined);
                } else {
                    self.regs.reverse(op);
                }
                1
            },
            0b1100 | 0b1101 => self.run_pop(op, bus),
            0b1110 => {
                self.pending_fault = Some(Fault::Breakpoint);
                1
            },
            0b1111 => self.run_hint(op, bus),
            _ => {
                self.pending_fault = Some(Fault::Undefined);
                1
            },
        }
    }

    /// The address of a branch by `offset` from the program counter.
    pub open spec fn branch_target(self, offset: int) -> u32 {
        word(self.current_instr_addr + 4 + offset)
    }

    pub fn address_ahead(&self, distance: u32) -> (out: u32)
        ensures
            out == self.branch_target(distance as int),
    {
        reveal(wadd);
        add32(self.read_pc(), distance)
    }

    pub fn address_back(&self, distance: u32) -> (out: u32)
        ensures
            out == self.branch_target(-(distance as int)),
    {
        reveal(wadd);
        reveal(wsub);
        sub32(self.read_pc(), distance)
    }

    /// Conditional branches, and the two codes that are none.
    #[verifier::opaque]
    pub open spec fn conditional(self, bus: BusState, op: u16) -> Effect {
        let cond = (op / 0x100 % 16) as u8;
        let imm = op % 0x100;
        let offset = if imm >= 0x80 {
            2 * (imm - 0x100)
        } else {
            2 * imm
        };
        if cond == 15 {
            self.with_fault(Fault::Svc).took(bus, 1)
        } else if cond == 14 {
            self.with_fault(Fault::Undefined).took(bus, 1)
        } else if self.regs.holds(cond) {
            self.with_regs(self.regs.with_reg(15, self.branch_target(offset))).took(bus, 3)
        } else {
            self.took(bus, 1)
        }
    }

    fn run_conditional(&mut self, op: u16) -> (cycles: u32)
        ensures
            forall|b: BusState|
                (Effect { cpu: *final(self), bus: b, cycles }) == #[trigger] old(self).conditional(b, op),
            cycles <= MAX_CYCLES,
    {
        reveal(CortexM0Plus::conditional);
        let cond: u8 = (op / 0x100 % 16) as u8;
        let imm: u32 = (op % 0x100) as u32;
        if cond == 15 {
            self.pending_fault = Some(Fault::Svc);
            return 1;
        }
        if cond == 14 {
            self.pending_fault = Some(Fault::Undefined);
            return 1;
        }
        if self.regs.condition_passed(cond) {
            self.regs.r[15] = if imm >= 0x80 {
                self.address_back(2 * (0x100 - imm))
            } else {
                self.address_ahead(2 * imm)
            };
            3
        } else {
            1
        }
    }

    /// The unconditional branch.
    #[verifier::opaque]
    pub open spec fn branch(self, bus: BusState, op: u16) -> Effect {
        let imm = op % 0x800;
        let offset = if imm >= 0x400 {
            2 * (imm - 0x800)
        } else {
            2 * imm
        };
        self.with_regs(self.regs.with_reg(15, self.branch_target(offset))).took(bus, 3)
    }

    fn run_branch(&mut self, op: u16) -> (cycles: u32)
        ensures
            forall|b: BusState|
                (Effect { cpu: *final(self), bus: b, cycles }) == #[trigger] old(self).branch(b, op),
            cycles <= MAX_CYCLES,
    {
        reveal(CortexM0Plus::branch);
        let imm: u32 = (op % 0x800) as u32;
        self.regs.r[15] = if imm >= 0x400 {
            self.address_back(2 * (0x800 - imm))
        } else {
            self.address_ahead(2 * imm)
        };
        3
    }

    /// One 16-bit instruction, by its top five bits.
    #[verifier::opaque]
    pub open spec fn thumb16(self, bus: BusState, op: u16) -> Effect {
        let group = op / 0x800;
        if group < 0b00011 {
            self.with_regs(self.regs.after_shift_imm(op)).took(bus, 1)
        } else if group == 0b00011 {
            self.with_regs(self.regs.after_add_sub(op)).took(bus, 1)
        } else if group < 0b01000 {
            self.with_regs(self.regs.after_imm8(op)).took(bus, 1)
        } else if group == 0b01000 {
            if op / 0x400 % 2 == 0 {
                self.with_regs(self.regs.after_data_processing(op)).took(bus, 1)
            } else {
                self.special(bus, op)
            }
        } else if group == 0b01001 || group == 0b10010 || group == 0b10011 || group == 0b10100 || group
            == 0b10101 {
            self.relative(bus, op)
        } else if group < 0b01100 {
            self.ls_register(bus, op)
        } else if group < 0b10010 {
            self.ls_immediate(bus, op)
        } else if group < 0b11000 {
            self.misc(bus, op)
        } else if group < 0b11010 {
            self.multiple(bus, op)
        } else if group < 0b11100 {
            self.conditional(bus, op)
        } else if group == 0b11100 {
            self.branch(bus, op)
        } else {
            self.with_fault(Fault::Undefined).took(bus, 1)
        }
    }

    pub fn execute_thumb16(&mut self, op: u16, bus: &mut Bus) -> (cycles: u32)
        ensures
            (Effect { cpu: *final(self), bus: final(bus)@, cycles }) == old(self).thumb16(old(bus)@, op),
            cycles <= MAX_CYCLES,
    {
        reveal(CortexM0Plus::thumb16);
        match op / 0x800 {
            0b00000 | 0b00001 | 0b00010 => {
                self.regs.shift_imm(op);
                1
            },
            0b00011 => {
                self.regs.add_sub(op);
                1
            },
            0b00100 | 0b00101 | 0b00110 | 0b00111 => {
                self.regs.imm8(op);
                1
            },
            0b01000 => {
                if op / 0x400 % 2 == 0 {
                    self.regs.data_processing(op);
                    1
                } else {
                    self.run_special(op, bus)
                }
            },
            0b01001 | 0b10010 | 0b10011 | 0b10100 | 0b10101 => self.run_relative(op, bus),
            0b01010 | 0b01011 => self.run_ls_register(op, bus),
            0b01100 | 0b01101 | 0b01110 | 0b01111 | 0b10000 | 0b10001 => self.run_ls_immediate(op, bus),
            0b10110 | 0b10111 => self.run_misc(op, bus),
            0b11000 | 0b11001 => self.run_multiple(op, bus),
            0b11010 | 0b11011 => self.run_conditional(op),
            0b11100 => self.run_branch(op),
            _ => {
                self.pending_fault = Some(Fault::Undefined);
                1
            },
        }
    }
}

} // verus!
