//! What exceptions put where, and what the registers of the system control
//! space, the interrupt controller and the system timer do.
use vstd::prelude::*;

use crate::bits::{bit, lemma_bit_ops, wadd, wsub};
use crate::bus::laws::{law_reads_leave_memory_alone, law_sram_read};
use crate::bus::model::BusState;
use crate::bus::ppb::Ppb;
use crate::cpu::access_laws::{lemma_ran_wide, lemma_sum_of, past_wide, ran_wide};
use crate::cpu::exceptions::{frame_at, word_read, Frame};
use crate::cpu::laws::{can_take, frame_in, lemma_frame_pushed, lemma_stack_above_frame, word_in};
use crate::cpu::nvic::Nvic;
use crate::cpu::registers::Registers;
use crate::cpu::systick::SysTick;
use crate::cpu::{CortexM0Plus, Effect, Fault};
use crate::memory::Width;

verus! {

#[verifier::rlimit(60)]
proof fn lemma_system_words(x: u32, n: u32, i: u32)
    by (bit_vector)
    requires
        i < 32,
    ensures
        x & 0xFFFF_FFF8 == x - x % 8,
        x & 4 != 0 <==> x / 4 % 2 == 1,
        x & 0xFFFF_FFFE == x - x % 2,
        x & 1 == x % 2,
        x & 1 != 0 <==> x % 2 == 1,
        x & 1 == 0 <==> x % 2 == 0,
        x & 2 != 0 <==> x / 2 % 2 == 1,
        x & 3 == x % 4,
        x & 0x1FF == x % 512,
        n < 512 ==> ((x & 0xFFFF_FE00) | (n & 0x1FF)) == x / 512 * 512 + n,
        (x & 0xFFFF_FFFD) / 4 == x / 4 && (x & 0xFFFF_FFFD) % 4 == x % 2,
        x & 0xF000_0000 == x / 0x1000_0000 * 0x1000_0000,
        (x & 0x0FFF_FFFF) | (n & 0xF000_0000) == x % 0x1000_0000 + n / 0x1000_0000 * 0x1000_0000,
        (x & 0xF000_0000) | (x & 0x1FF) == x / 0x1000_0000 * 0x1000_0000 + x % 512,
        (x & 0x2) | (n & 0x1) == x / 2 % 2 * 2 + n % 2,
        ((x & !0x200u32) | 0x200) == x - (if x / 512 % 2 == 1 { 512u32 } else { 0u32 }) + 512,
        ((x & !0x200u32) | 0) == x - (if x / 512 % 2 == 1 { 512u32 } else { 0u32 }),
        x & 0xFFFF_FF00 == x - x % 256,
        x & 0x00FF_FFFF == x % 0x100_0000,
        x & !0x1_0000u32 == x - (if x / 0x1_0000 % 2 == 1 { 0x1_0000u32 } else { 0u32 }),
        (x & 0x1_0000) | (n & 0x7) == x / 0x1_0000 % 2 * 0x1_0000 + n % 8,
        x | 0x1_0000 == x + (if x / 0x1_0000 % 2 == 1 { 0u32 } else { 0x1_0000u32 }),
        (0x03FF_FFFFu32 >> i) & 1 == 1 <==> i < 26,
{
}

proof fn lemma_pend_words(x: u32)
    by (bit_vector)
    ensures
        x & 0x1000_0000 != 0 <==> x / 0x1000_0000 % 2 == 1,
        x & 0x0800_0000 != 0 <==> x / 0x0800_0000 % 2 == 1,
        x & 0x0400_0000 != 0 <==> x / 0x0400_0000 % 2 == 1,
        x & 0x0200_0000 != 0 <==> x / 0x0200_0000 % 2 == 1,
        (x | 0x1000_0000) / 0x1000_0000 % 2 == 1 && (x & !0x1000_0000u32) / 0x1000_0000 % 2 == 0,
        (x | 0x0400_0000) / 0x0400_0000 % 2 == 1 && (x & !0x0400_0000u32) / 0x0400_0000 % 2 == 0,
        (x | 0x1000_0000) / 0x0400_0000 % 2 == x / 0x0400_0000 % 2 && (x & !0x1000_0000u32) / 0x0400_0000 % 2 == x
            / 0x0400_0000 % 2,
        (x | 0x0400_0000) / 0x1000_0000 % 2 == x / 0x1000_0000 % 2 && (x & !0x0400_0000u32) / 0x1000_0000 % 2 == x
            / 0x1000_0000 % 2,
{
}

pub proof fn lemma_top_two(b: u8)
    by (bit_vector)
    ensures
        b & 0xC0 == b / 64 * 64,
{
}

/// The stack that is in use is the process stack: in thread mode, with bit 1
/// of CONTROL set.
pub open spec fn on_process_stack(r: Registers) -> bool {
    r.control as int / 2 % 2 == 1 && r.xpsr as int % 512 == 0
}

/// Where the frame of an exception goes: eight words below the stack pointer,
/// down to a multiple of eight.
pub open spec fn frame_base(cpu: CortexM0Plus) -> int {
    (cpu.regs.r[13] - 32) - (cpu.regs.r[13] - 32) % 8
}

/// The vector of exception `n`.
pub open spec fn vector_of(cpu: CortexM0Plus, bus: BusState, n: u32) -> u32 {
    bus.value_at(((bus.ppb[cpu.id()].vtor + 4 * n) % 0x1_0000_0000) as u32, Width::Word)
}

#[verifier::rlimit(40)]
proof fn lemma_entered(cpu: CortexM0Plus, bus: BusState, n: u32)
    requires
        can_take(cpu, bus, n),
    ensures
        ({
            let regs = cpu.regs.sp_banked();
            let frame = frame_at(cpu.regs.r[13]);
            let xpsr = (cpu.regs.xpsr & !0x200u32) | (if cpu.regs.r[13] & 4 != 0 {
                0x200
            } else {
                0
            });
            let e = cpu.entered(bus, n);
            &&& e.cpu == cpu.with_regs(regs.in_exception(n, frame, vector_of(cpu, bus, n)))
            &&& e.cycles == 16
            &&& e.bus.memory.sram.len() == bus.memory.sram.len()
            &&& frame_in(e.bus.memory.sram, frame - 0x2000_0000) == (Frame {
                r0: regs.r[0],
                r1: regs.r[1],
                r2: regs.r[2],
                r3: regs.r[3],
                r12: regs.r[12],
                lr: regs.r[14],
                pc: regs.r[15],
                xpsr,
            })
            &&& vector_of(cpu, bus, n) & 1 != 0
        }),
{
    let regs = cpu.regs.sp_banked();
    let sp = regs.r[13];
    let frame = frame_at(sp);
    let vtor = bus.ppb[cpu.id()].vtor;
    let addr = wadd(vtor, (4 * n) as u32);
    lemma_sum_of(vtor, (4 * n) as u32);
    let read = word_read(bus, addr);
    law_reads_leave_memory_alone(bus, addr, Width::Word);
    let xpsr = (regs.xpsr & !0x200u32) | (if sp & 4 != 0 {
        0x200
    } else {
        0
    });
    lemma_frame_pushed(read.1, frame, regs, xpsr);
    reveal(CortexM0Plus::entered);
}

#[verifier::rlimit(40)]
proof fn lemma_frame_base(cpu: CortexM0Plus, bus: BusState)
    requires
        crate::cpu::laws::frame_in_sram(bus, frame_at(cpu.regs.r[13])),
        cpu.regs.r[13] % 4 == 0,
    ensures
        frame_at(cpu.regs.r[13]) == frame_base(cpu),
        cpu.regs.r[13] & 4 != 0 <==> frame_base(cpu) + 32 < cpu.regs.r[13],
{
    let sp = cpu.regs.r[13];
    lemma_stack_above_frame(sp);
    lemma_system_words(wsub(sp, 32), 0, 0);
    lemma_system_words(sp, 0, 0);
}

/// What an exception saves: r0 to r3, r12, the link register, the address to
/// return to and the status, in that order upwards, with bit 9 of the status
/// recording a word of padding.
#[verifier::rlimit(40)]
pub proof fn law_exception_frame(cpu: CortexM0Plus, bus: BusState, n: u32)
    requires
        can_take(cpu, bus, n),
    ensures
        ({
            let before = cpu.regs;
            let at = frame_base(cpu);
            let e = cpu.entered(bus, n);
            let m = |k: int| e.bus.value_at((at + k) as u32, Width::Word);
            &&& m(0) == before.r[0] && m(4) == before.r[1] && m(8) == before.r[2] && m(12) == before.r[3]
            &&& m(16) == before.r[12] && m(20) == before.r[14] && m(24) == before.r[15]
            &&& m(28) == before.xpsr - before.xpsr as int / 512 % 2 * 512 + (if at + 32 < before.r[13] {
                512int
            } else {
                0
            })
        }),
{
    lemma_entered(cpu, bus, n);
    lemma_frame_base(cpu, bus);
    lemma_system_words(cpu.regs.xpsr, 0, 0);
    lemma_frame_words(cpu.entered(bus, n).bus, frame_at(cpu.regs.r[13]));
}

/// The register file at the start of a handler: at its vector, on the main
/// stack, with the way back in the link register and its number in the status
/// word; everything else as it was.
#[verifier::rlimit(40)]
pub proof fn law_exception_entry(cpu: CortexM0Plus, bus: BusState, n: u32)
    requires
        can_take(cpu, bus, n),
    ensures
        ({
            let before = cpu.regs;
            let at = frame_base(cpu);
            let e = cpu.entered(bus, n);
            let after = e.cpu.regs;
            let psp = on_process_stack(before);
            &&& after.r[15] == vector_of(cpu, bus, n) - 1
            &&& after.r[14] == (if before.xpsr as int % 512 != 0 {
                0xFFFF_FFF1u32
            } else if psp {
                0xFFFF_FFFD
            } else {
                0xFFFF_FFF9
            })
            &&& psp ==> after.psp == at && after.msp == before.msp && after.r[13] == before.msp
            &&& !psp ==> after.msp == at && after.psp == before.psp && after.r[13] == at
            &&& after.xpsr == before.xpsr as int / 512 * 512 + n
            &&& after.control as int / 4 == before.control as int / 4 && after.control as int % 4
                == before.control as int % 2
            &&& after.primask == before.primask
            &&& forall|k: int| 0 <= k < 13 ==> #[trigger] after.r[k] == before.r[k]
            &&& e.cycles == 16
            &&& e.cpu == (CortexM0Plus { regs: after, ..cpu })
        }),
{
    lemma_entered(cpu, bus, n);
    lemma_frame_base(cpu, bus);
    lemma_system_words(cpu.regs.xpsr, n, 0);
    lemma_system_words(cpu.regs.control, 0, 0);
    lemma_system_words(vector_of(cpu, bus, n), 0, 0);
}

/// The words of a frame, as reads give them.
#[verifier::rlimit(40)]
proof fn lemma_frame_words(b: BusState, at: u32)
    requires
        crate::cpu::laws::frame_in_sram(b, at),
    ensures
        ({
            let f = frame_in(b.memory.sram, at - 0x2000_0000);
            let m = |k: int| b.value_at((at + k) as u32, Width::Word);
            &&& m(0) == f.r0 && m(4) == f.r1 && m(8) == f.r2 && m(12) == f.r3
            &&& m(16) == f.r12 && m(20) == f.lr && m(24) == f.pc && m(28) == f.xpsr
        }),
{
    reveal(word_in);
    law_sram_read(b, at, Width::Word);
    law_sram_read(b, (at + 4) as u32, Width::Word);
    law_sram_read(b, (at + 8) as u32, Width::Word);
    law_sram_read(b, (at + 12) as u32, Width::Word);
    law_sram_read(b, (at + 16) as u32, Width::Word);
    law_sram_read(b, (at + 20) as u32, Width::Word);
    law_sram_read(b, (at + 24) as u32, Width::Word);
    law_sram_read(b, (at + 28) as u32, Width::Word);
}

/// A hard fault inside the hard fault handler locks the core up at once; a
/// vector that is no Thumb address locks it up for a hard fault, and turns
/// any other exception into one.
#[verifier::rlimit(40)]
pub proof fn law_lockup(cpu: CortexM0Plus, bus: BusState, n: u32)
    requires
        n < 64,
    ensures
        ({
            let e = cpu.entered(bus, n);
            let vector = bus.value_at(
                ((bus.ppb[cpu.id()].vtor + 4 * n) % 0x1_0000_0000) as u32,
                Width::Word,
            );
            let nested = n == 3 && cpu.regs.xpsr as int % 512 == 3;
            &&& nested ==> e.cpu == (CortexM0Plus { halted: true, ..cpu }) && e.bus == bus && e.cycles == 0
            &&& !nested && vector % 2 == 0 && n == 3 ==> e.cpu == (CortexM0Plus { halted: true, ..cpu })
            &&& !nested && vector % 2 == 0 && n != 3 ==> e.cpu == (CortexM0Plus {
                pending_fault: Some(Fault::HardFault),
                ..cpu
            })
        }),
{
    let vtor = bus.ppb[cpu.id()].vtor;
    lemma_sum_of(vtor, (4 * n) as u32);
    lemma_system_words(cpu.regs.xpsr, 0, 0);
    lemma_system_words(bus.value_at(wadd(vtor, (4 * n) as u32), Width::Word), 0, 0);
    reveal(CortexM0Plus::entered);
}

/// Nothing but register `d` and the program counter, which is past the wide
/// instruction; three cycles.
pub open spec fn reads_special(cpu: CortexM0Plus, bus: BusState, e: Effect, d: int, v: int) -> bool {
    &&& e.bus == bus
    &&& e.cycles == 3
    &&& e.cpu == (CortexM0Plus { regs: e.cpu.regs, current_instr_addr: cpu.regs.r[15], ..cpu })
    &&& e.cpu.regs == (Registers { r: e.cpu.regs.r, ..cpu.regs })
    &&& e.cpu.regs.r[d] == v
    &&& forall|k: int| 0 <= k < 15 && k != d ==> #[trigger] e.cpu.regs.r[k] == cpu.regs.r[k]
}

/// `mrs`: the flags, the exception number, both, the two stack pointers, the
/// mask and CONTROL.
#[verifier::rlimit(40)]
pub proof fn law_read_special(cpu: CortexM0Plus, bus: BusState, d: int)
    requires
        0 <= d < 13,
    ensures
        ({
            let r = cpu.regs;
            let mrs = |sysm: int| ran_wide(cpu, bus, 0xF3EF, 0x8000 + 0x100 * d + sysm);
            let top = r.xpsr as int / 0x1000_0000 * 0x1000_0000;
            let number = r.xpsr as int % 512;
            let psp = on_process_stack(r);
            &&& reads_special(cpu, bus, mrs(0), d, top)
            &&& reads_special(cpu, bus, mrs(3), d, top + number)
            &&& reads_special(cpu, bus, mrs(5), d, number)
            &&& reads_special(cpu, bus, mrs(8), d, if psp {
                r.msp as int
            } else {
                r.r[13] as int
            })
            &&& reads_special(cpu, bus, mrs(9), d, if psp {
                r.r[13] as int
            } else {
                r.psp as int
            })
            &&& reads_special(cpu, bus, mrs(16), d, r.primask as int)
            &&& reads_special(cpu, bus, mrs(20), d, r.control as int)
        }),
{
    lemma_system_words(cpu.regs.xpsr, 0, 0);
    lemma_system_words(cpu.regs.control, 0, 0);
    lemma_mrs(cpu, bus, d, 0);
    lemma_mrs(cpu, bus, d, 3);
    lemma_mrs(cpu, bus, d, 5);
    lemma_mrs(cpu, bus, d, 8);
    lemma_mrs(cpu, bus, d, 9);
    lemma_mrs(cpu, bus, d, 16);
    lemma_mrs(cpu, bus, d, 20);
}

#[verifier::rlimit(40)]
proof fn lemma_mrs(cpu: CortexM0Plus, bus: BusState, d: int, sysm: int)
    requires
        0 <= d < 13,
        0 <= sysm < 256,
    ensures
        ({
            let c = past_wide(cpu);
            ran_wide(cpu, bus, 0xF3EF, 0x8000 + 0x100 * d + sysm) == (match c.regs.special_value(sysm as u32) {
                Some(v) => c.with_regs(c.regs.with_reg(d, v)).took(bus, 3),
                None => c.with_fault(Fault::Undefined).took(bus, 1),
            })
        }),
{
    let hw1 = (0x8000 + 0x100 * d + sysm) as u16;
    assert(hw1 / 0x100 == 0x80 + d && hw1 % 0x100 == sysm && hw1 / 0x1000 == 8 && hw1 / 0x4000 == 2);
    lemma_ran_wide(cpu, bus, 0xF3EF, hw1 as int);
    assert(ran_wide(cpu, bus, 0xF3EF, hw1 as int) == past_wide(cpu).read_special(bus, hw1)) by {
        reveal(CortexM0Plus::thumb32);
    }
    reveal(CortexM0Plus::read_special);
}

/// `msr`: the flags take the top four bits, a stack pointer all of them, the
/// mask its lowest, and CONTROL its lowest, or in thread mode two, with the
/// stack pointer following the stack in use. The exception number cannot be
/// written.
#[verifier::rlimit(40)]
pub proof fn law_write_special(cpu: CortexM0Plus, bus: BusState, n: int)
    requires
        0 <= n < 13,
    ensures
        ({
            let r = cpu.regs;
            let v = r.r[n];
            let after = |sysm: int| ran_wide(cpu, bus, 0xF380 + n, 0x8800 + sysm).cpu.regs;
            let psp = on_process_stack(r);
            let handler = r.xpsr as int % 512 != 0;
            &&& after(0).xpsr == r.xpsr as int % 0x1000_0000 + v as int / 0x1000_0000 * 0x1000_0000
            &&& after(3).xpsr == after(0).xpsr
            &&& after(5).xpsr == r.xpsr
            &&& after(8).msp == v && after(8).psp == r.psp && after(8).r[13] == (if psp {
                r.r[13]
            } else {
                v
            })
            &&& after(9).psp == v && after(9).msp == r.msp && after(9).r[13] == (if psp {
                v
            } else {
                r.r[13]
            })
            &&& after(16).primask == v % 2
            &&& handler ==> after(20).control == r.control as int / 2 % 2 * 2 + v % 2 && after(20).r[13] == r.r[13]
            &&& !handler ==> after(20).control == v % 4
            &&& !handler && psp && v as int / 2 % 2 == 0 ==> after(20).psp == r.r[13] && after(20).r[13] == r.msp
            &&& !handler && !psp && v as int / 2 % 2 == 1 ==> after(20).msp == r.r[13] && after(20).r[13] == r.psp
            &&& !handler && psp == (v as int / 2 % 2 == 1) ==> after(20).r[13] == r.r[13]
        }),
{
    let v = cpu.regs.r[n];
    lemma_system_words(cpu.regs.xpsr, v, 0);
    lemma_system_words(cpu.regs.control, v, 0);
    lemma_system_words(v, 0, 0);
    lemma_system_words(v & 0x3, 0, 0);
    lemma_msr(cpu, bus, n, 0);
    lemma_msr(cpu, bus, n, 3);
    lemma_msr(cpu, bus, n, 5);
    lemma_msr(cpu, bus, n, 8);
    lemma_msr(cpu, bus, n, 9);
    lemma_msr(cpu, bus, n, 16);
    lemma_msr(cpu, bus, n, 20);
}

#[verifier::rlimit(40)]
proof fn lemma_msr(cpu: CortexM0Plus, bus: BusState, n: int, sysm: int)
    requires
        0 <= n < 13,
        0 <= sysm < 256,
    ensures
        ({
            let c = past_wide(cpu);
            ran_wide(cpu, bus, 0xF380 + n, 0x8800 + sysm) == (match c.regs.with_special(
                sysm as u32,
                cpu.regs.r[n],
            ) {
                Some(regs) => c.with_regs(regs).took(bus, 3),
                None => c.with_fault(Fault::Undefined).took(bus, 1),
            })
        }),
{
    let hw0 = (0xF380 + n) as u16;
    let hw1 = (0x8800 + sysm) as u16;
    assert(hw0 % 16 == n && hw0 / 16 == 0xF38 && hw0 / 16 % 128 == 0x38);
    assert(hw1 / 0x100 == 0x88 && hw1 % 0x100 == sysm && hw1 / 0x4000 == 2);
    lemma_ran_wide(cpu, bus, hw0 as int, hw1 as int);
    assert(ran_wide(cpu, bus, hw0 as int, hw1 as int) == past_wide(cpu).write_special(bus, hw0, hw1)) by {
        reveal(CortexM0Plus::thumb32);
    }
    reveal(CortexM0Plus::write_special);
}

/// The interrupt controller's registers: the set registers turn lines below 26
/// on, the clear registers off, and both of a pair read the same word.
#[verifier::rlimit(40)]
pub proof fn law_interrupt_controller(v: Nvic, val: u32, i: int)
    requires
        0 <= i < 32,
    ensures
        ({
            let iser = v.after_write(0x100, val);
            let icer = v.after_write(0x180, val);
            let ispr = v.after_write(0x200, val);
            let icpr = v.after_write(0x280, val);
            &&& bit(iser.enabled, i) == (bit(v.enabled, i) || (i < 26 && bit(val, i))) && iser == (Nvic {
                enabled: iser.enabled,
                ..v
            })
            &&& bit(icer.enabled, i) == (bit(v.enabled, i) && !bit(val, i)) && icer == (Nvic {
                enabled: icer.enabled,
                ..v
            })
            &&& bit(ispr.pending, i) == (bit(v.pending, i) || (i < 26 && bit(val, i))) && ispr == (Nvic {
                pending: ispr.pending,
                ..v
            })
            &&& bit(icpr.pending, i) == (bit(v.pending, i) && !bit(val, i)) && icpr == (Nvic {
                pending: icpr.pending,
                ..v
            })
            &&& v.word_at(0x100) == v.enabled && v.word_at(0x180) == v.enabled
            &&& v.word_at(0x200) == v.pending && v.word_at(0x280) == v.pending
        }),
{
    let k = i as u32;
    lemma_system_words(0, 0, k);
    lemma_bit_ops(val, 0x03FF_FFFF, k, 0);
    lemma_bit_ops(v.enabled, val & 0x03FF_FFFF, k, 0);
    lemma_bit_ops(v.pending, val & 0x03FF_FFFF, k, 0);
    lemma_bit_ops(v.enabled, val, k, 0);
    lemma_bit_ops(v.pending, val, k, 0);
}

/// A priority word sets the priorities of four lines, one byte each, of which
/// the top two bits are kept; it reads back as kept and leaves the other
/// lines.
#[verifier::rlimit(40)]
pub proof fn law_priorities(v: Nvic, n: int, val: u32, k: int)
    requires
        0 <= n < 8,
        0 <= k < 32,
    ensures
        ({
            let after = v.after_write((0x400 + 4 * n) as u32, val);
            let byte = |j: int| if j == 0 {
                val as int % 0x100
            } else if j == 1 {
                val as int / 0x100 % 0x100
            } else if j == 2 {
                val as int / 0x1_0000 % 0x100
            } else {
                val as int / 0x100_0000
            };
            &&& after.priority[k] == (if k / 4 == n {
                byte(k % 4) / 64 * 64
            } else {
                v.priority[k] as int
            })
            &&& after == (Nvic { priority: after.priority, ..v })
            &&& v.word_at((0x400 + 4 * n) as u32) == v.priority[4 * n] + 0x100 * v.priority[4 * n + 1] + 0x1_0000
                * v.priority[4 * n + 2] + 0x100_0000 * v.priority[4 * n + 3]
        }),
{
    lemma_top_two((val % 0x100) as u8);
    lemma_top_two((val / 0x100 % 0x100) as u8);
    lemma_top_two((val / 0x1_0000 % 0x100) as u8);
    lemma_top_two((val / 0x100_0000) as u8);
}

/// The system control block: the pend bits of ICSR are set and cleared by
/// their own write bits, the vector table sits on a multiple of 256, and the
/// two priority words keep the top two bits of each byte.
#[verifier::rlimit(40)]
pub proof fn law_system_control(p: Ppb, val: u32)
    ensures
        ({
            let icsr = p.after_write(0xE000_ED04, val);
            let holds = |x: u32, b: int| x as int / b % 2 == 1;
            &&& holds(icsr.icsr, 0x1000_0000) == ((holds(p.icsr, 0x1000_0000) || holds(val, 0x1000_0000)) && !holds(
                val,
                0x0800_0000,
            ))
            &&& holds(icsr.icsr, 0x0400_0000) == ((holds(p.icsr, 0x0400_0000) || holds(val, 0x0400_0000)) && !holds(
                val,
                0x0200_0000,
            ))
            &&& icsr == (Ppb { icsr: icsr.icsr, ..p })
            &&& p.word_at(0xE000_ED04) == p.icsr
            &&& p.after_write(0xE000_ED08, val) == (Ppb { vtor: (val - val % 256) as u32, ..p })
            &&& p.word_at(0xE000_ED08) == p.vtor
            &&& p.word_at(0xE000_ED00) == 0x410C_C601
            &&& p.after_write(0xE000_ED20, val).shpr[10] == val as int / 0x1_0000 % 0x100 / 64 * 64
            &&& p.after_write(0xE000_ED20, val).shpr[11] == val as int / 0x100_0000 / 64 * 64
            &&& p.after_write(0xE000_ED1C, val).shpr[7] == val as int / 0x100_0000 / 64 * 64
        }),
{
    let set = 0x1000_0000u32;
    lemma_pend_words(val);
    lemma_system_words(val, 0, 0);
    lemma_pend_words(p.icsr);
    lemma_pend_words(p.icsr | set);
    let a = if val & 0x1000_0000 != 0 {
        p.icsr | 0x1000_0000
    } else {
        p.icsr
    };
    let b = if val & 0x0800_0000 != 0 {
        a & !0x1000_0000u32
    } else {
        a
    };
    let c = if val & 0x0400_0000 != 0 {
        b | 0x0400_0000
    } else {
        b
    };
    lemma_pend_words(a);
    lemma_pend_words(b);
    lemma_pend_words(c);
    lemma_top_two((val % 0x100) as u8);
    lemma_top_two((val / 0x100 % 0x100) as u8);
    lemma_top_two((val / 0x1_0000 % 0x100) as u8);
    lemma_top_two((val / 0x100_0000) as u8);
}

/// The system timer's registers. A read of the control word clears the count
/// flag, a write sets the three control bits and keeps the flag, the reload
/// value has 24 bits, and any write to the counter empties it.
#[verifier::rlimit(40)]
pub proof fn law_system_timer_registers(s: SysTick, val: u32)
    ensures
        s.after_write(0x10, val) == (SysTick {
            csr: (s.csr as int / 0x1_0000 % 2 * 0x1_0000 + val % 8) as u32,
            ..s
        }),
        s.after_write(0x14, val) == (SysTick { rvr: val % 0x100_0000, ..s }),
        s.after_write(0x18, val).cvr == 0 && s.after_write(0x18, val).rvr == s.rvr,
        s.after_write(0x18, val).csr == s.csr - s.csr as int / 0x1_0000 % 2 * 0x1_0000,
        s.after_read(0x10).csr == s.csr - s.csr as int / 0x1_0000 % 2 * 0x1_0000,
        s.after_read(0x14) == s && s.after_read(0x18) == s,
        s.word_at(0x10) == s.csr && s.word_at(0x14) == s.rvr && s.word_at(0x18) == s.cvr,
{
    lemma_system_words(s.csr, val, 0);
    lemma_system_words(val, 0, 0);
}

/// One clock of the system timer: off, it stands still; at zero it reloads,
/// raises the count flag and asks for its exception if it may; else it counts
/// down.
#[verifier::rlimit(40)]
pub proof fn law_system_timer_clock(s: SysTick)
    ensures
        ({
            let on = s.csr % 2 == 1;
            let after = s.after_tick();
            &&& !on ==> after == s
            &&& on && s.cvr != 0 ==> after == (SysTick { cvr: (s.cvr - 1) as u32, ..s })
            &&& on && s.cvr == 0 ==> after.cvr == s.rvr && after.rvr == s.rvr && after.csr as int / 0x1_0000 % 2 == 1
                && after.csr as int % 0x1_0000 == s.csr as int % 0x1_0000
            &&& s.fires() == (on && s.cvr == 0 && s.csr as int / 2 % 2 == 1)
        }),
{
    lemma_system_words(s.csr, 0, 0);
}

} // verus!
