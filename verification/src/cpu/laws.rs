//! What holds of the core as a whole.
use vstd::prelude::*;

use crate::bits::{lemma_word_facts, wadd, wsub};
use crate::bus::laws::{in_sram, law_reads_leave_memory_alone, law_sram_read, law_sram_write};
use crate::bus::model::BusState;
use crate::bus::ppb::{active_bit, ICSR_PENDSTSET, ICSR_PENDSVSET};
use crate::cpu::exceptions::{
    frame_at, frame_popped, frame_pushed, padded, word_read, Candidate, Frame, ENTRY_CYCLES,
    XPSR_PADDED,
};
use crate::cpu::registers::Registers;
use crate::cpu::{CortexM0Plus, Fault};
use crate::memory::{law_load_after_store, law_store_is_local, load, store, Width};

verus! {

/// Eight words from `at` on lie inside SRAM.
pub open spec fn frame_in_sram(b: BusState, at: u32) -> bool {
    0x2000_0000 <= at && at + 32 <= 0x3000_0000 && at - 0x2000_0000 + 32 <= b.memory.sram.len()
}

/// The word at offset `at` of a memory.
#[verifier::opaque]
pub open spec fn word_in(s: Seq<u8>, at: int) -> u32 {
    load(s, at, Width::Word)
}

/// A word written inside SRAM is there, and no other word has changed.
pub proof fn lemma_word_written(b: BusState, addr: u32, val: u32)
    requires
        in_sram(b, addr, Width::Word),
    ensures
        ({
            let at = addr - 0x2000_0000;
            let s = b.memory.sram;
            let after = b.after_write(addr, Width::Word, val);
            &&& after.memory.sram.len() == s.len()
            &&& after.ppb == b.ppb
            &&& word_in(after.memory.sram, at) == val
            &&& forall|o: int|
                0 <= o && o + 4 <= s.len() && (o + 4 <= at || at + 4 <= o) ==> #[trigger] word_in(
                    after.memory.sram,
                    o,
                ) == word_in(s, o)
        }),
{
    reveal(word_in);
    let at = addr - 0x2000_0000;
    let s = b.memory.sram;
    law_sram_write(b, addr, Width::Word, val);
    law_load_after_store(s, at, Width::Word, val);
    assert forall|o: int| 0 <= o && o + 4 <= s.len() && (o + 4 <= at || at + 4 <= o) implies #[trigger] word_in(
        store(s, at, Width::Word, val),
        o,
    ) == word_in(s, o) by {
        law_store_is_local(s, at, Width::Word, val, o, Width::Word);
    }
}

/// The eight words from offset `at` of a memory.
pub open spec fn frame_in(s: Seq<u8>, at: int) -> Frame {
    Frame {
        r0: word_in(s, at),
        r1: word_in(s, at + 4),
        r2: word_in(s, at + 8),
        r3: word_in(s, at + 12),
        r12: word_in(s, at + 16),
        lr: word_in(s, at + 20),
        pc: word_in(s, at + 24),
        xpsr: word_in(s, at + 28),
    }
}

/// A frame that was pushed, as memory holds it.
pub proof fn lemma_frame_pushed(b: BusState, at: u32, r: Registers, xpsr: u32)
    requires
        frame_in_sram(b, at),
    ensures
        ({
            let after = frame_pushed(b, at, r, xpsr);
            &&& after.memory.sram.len() == b.memory.sram.len()
            &&& after.ppb == b.ppb
            &&& frame_in(after.memory.sram, at - 0x2000_0000) == (Frame {
                r0: r.r[0],
                r1: r.r[1],
                r2: r.r[2],
                r3: r.r[3],
                r12: r.r[12],
                lr: r.r[14],
                pc: r.r[15],
                xpsr,
            })
        }),
{
    reveal(wadd);
    let b1 = b.after_write(at, Width::Word, r.r[0]);
    lemma_word_written(b, at, r.r[0]);
    let b2 = b1.after_write(wadd(at, 4), Width::Word, r.r[1]);
    lemma_word_written(b1, wadd(at, 4), r.r[1]);
    let b3 = b2.after_write(wadd(at, 8), Width::Word, r.r[2]);
    lemma_word_written(b2, wadd(at, 8), r.r[2]);
    let b4 = b3.after_write(wadd(at, 12), Width::Word, r.r[3]);
    lemma_word_written(b3, wadd(at, 12), r.r[3]);
    let b5 = b4.after_write(wadd(at, 16), Width::Word, r.r[12]);
    lemma_word_written(b4, wadd(at, 16), r.r[12]);
    let b6 = b5.after_write(wadd(at, 20), Width::Word, r.r[14]);
    lemma_word_written(b5, wadd(at, 20), r.r[14]);
    let b7 = b6.after_write(wadd(at, 24), Width::Word, r.r[15]);
    lemma_word_written(b6, wadd(at, 24), r.r[15]);
    lemma_word_written(b7, wadd(at, 28), xpsr);
    reveal(frame_pushed);
}

/// A word read inside SRAM is what memory holds, which the read leaves alone.
pub proof fn lemma_word_read(b: BusState, addr: u32)
    requires
        in_sram(b, addr, Width::Word),
    ensures
        word_read(b, addr).0 == word_in(b.memory.sram, addr - 0x2000_0000),
        word_read(b, addr).1.memory.sram == b.memory.sram,
        word_read(b, addr).1.ppb == b.ppb,
{
    reveal(word_in);
    law_sram_read(b, addr, Width::Word);
}

/// The frame that a return reads is what memory holds.
proof fn lemma_frame_popped(b: BusState, at: u32)
    requires
        frame_in_sram(b, at),
    ensures
        frame_popped(b, at).0 == frame_in(b.memory.sram, at - 0x2000_0000),
        frame_popped(b, at).1.memory.sram == b.memory.sram,
        frame_popped(b, at).1.ppb == b.ppb,
{
    reveal(wadd);
    lemma_word_read(b, at);
    let b0 = word_read(b, at).1;
    lemma_word_read(b0, wadd(at, 4));
    let b1 = word_read(b0, wadd(at, 4)).1;
    lemma_word_read(b1, wadd(at, 8));
    let b2 = word_read(b1, wadd(at, 8)).1;
    lemma_word_read(b2, wadd(at, 12));
    let b3 = word_read(b2, wadd(at, 12)).1;
    lemma_word_read(b3, wadd(at, 16));
    let b4 = word_read(b3, wadd(at, 16)).1;
    lemma_word_read(b4, wadd(at, 20));
    let b5 = word_read(b4, wadd(at, 20)).1;
    lemma_word_read(b5, wadd(at, 24));
    let b6 = word_read(b5, wadd(at, 24)).1;
    lemma_word_read(b6, wadd(at, 28));
    reveal(frame_popped);
}

/// Where the stack pointer is a multiple of four, the frame and its padding
/// end where the stack stood.
proof fn lemma_frame_ends_at_sp(sp: u32, low: u32)
    by (bit_vector)
    requires
        sp % 4 == 0,
        sp >= 32,
        low == sp - 32,
    ensures
        (low & 0xFFFF_FFF8) + (if sp & 4 != 0 { 36u32 } else { 32u32 }) == sp,
{
}

/// What the status word, the control word and the program counter go
/// through between entry and return.
proof fn lemma_status_round_trip(xpsr: u32, control: u32, n: u32, pc: u32)
    by (bit_vector)
    requires
        1 <= n < 64,
        pc % 2 == 0,
    ensures
        ((xpsr & !0x200u32) | 0x200) & 0x200 != 0,
        ((xpsr & !0x200u32) | 0x200) & !0x200u32 == xpsr & !0x200u32,
        ((xpsr & !0x200u32) | 0) & 0x200 == 0,
        ((xpsr & !0x200u32) | 0) & !0x200u32 == xpsr & !0x200u32,
        (xpsr & !0x200u32) & 0x1FF == xpsr & 0x1FF,
        ((xpsr & 0xFFFF_FE00) | (n & 0x1FF)) & 0x1FF == n,
        control & 2 == 0 ==> (control & 0xFFFF_FFFD) & 0xFFFF_FFFD == control,
        control & 2 != 0 ==> (control & 0xFFFF_FFFD) | 0x2 == control,
        (control & 0xFFFF_FFFD) & 2 == 0,
        (control | 0x2) & 2 != 0,
        0xFFFF_FFF1u32 & 0xF == 1,
        0xFFFF_FFF9u32 & 0xF == 9,
        0xFFFF_FFFDu32 & 0xF == 0xD,
        pc & 0xFFFF_FFFE == pc,
{
}

/// The core that took exception `n` may be entered and left again: its
/// vector is a Thumb address, and its frame lies in SRAM.
pub open spec fn can_take(cpu: CortexM0Plus, bus: BusState, n: u32) -> bool {
    &&& 1 <= n < 64
    &&& !(n == 3 && cpu.regs.exception_number() == 3)
    &&& bus.value_at(wadd(bus.ppb[cpu.id()].vtor, (4 * n) as u32), Width::Word) & 1 != 0
    &&& frame_in_sram(bus, frame_at(cpu.regs.r[13]))
    &&& cpu.regs.r[13] % 4 == 0
    &&& cpu.regs.r[15] % 2 == 0
}

/// A handler that returns at once through its link register gives back every
/// register, the status word, the masks and the stack it found. Only the
/// reserved padding bit of the status word is cleared.
pub proof fn law_return_undoes_entry(cpu: CortexM0Plus, bus: BusState, n: u32)
    requires
        can_take(cpu, bus, n),
        cpu.regs.in_handler() ==> cpu.regs.control & 2 == 0,
    ensures
        ({
            let inside = cpu.entered(bus, n);
            let back = inside.cpu.unwound(inside.bus, inside.cpu.regs.r[14]).0;
            let before = cpu.regs.sp_banked();
            &&& inside.cpu.regs.exception_number() == n
            &&& back.regs == (Registers { xpsr: before.xpsr & !XPSR_PADDED, ..before })
            &&& back == cpu.with_regs(back.regs)
        }),
{
    let read = word_read(bus, wadd(bus.ppb[cpu.id()].vtor, (4 * n) as u32));
    let vector = read.0;
    let bus1 = read.1;
    law_reads_leave_memory_alone(bus, wadd(bus.ppb[cpu.id()].vtor, (4 * n) as u32), Width::Word);
    let regs = cpu.regs.sp_banked();
    let sp = regs.r[13];
    let frame = frame_at(sp);
    let xpsr = (regs.xpsr & !XPSR_PADDED) | (if padded(sp) {
        XPSR_PADDED
    } else {
        0
    });
    lemma_stack_above_frame(sp);
    lemma_frame_ends_at_sp(sp, wsub(sp, 32));
    lemma_status_round_trip(regs.xpsr, regs.control, n, regs.r[15]);
    lemma_frame_pushed(bus1, frame, regs, xpsr);
    let inside = cpu.entered(bus, n);
    assert(inside.cpu == cpu.with_regs(regs.in_exception(n, frame, vector)) && inside.bus.memory == frame_pushed(
        bus1,
        frame,
        regs,
        xpsr,
    ).memory) by {
        reveal(CortexM0Plus::entered);
    }
    let inner = regs.in_exception(n, frame, vector);
    let bus3 = inside.bus.with_ppb(
        cpu.id(),
        inside.bus.ppb[cpu.id()].without_active(inner.sp_banked().exception_number()),
    );
    lemma_frame_popped(bus3, frame);
    assert(wadd(frame, if padded(sp) {
        36
    } else {
        32
    }) == sp) by {
        reveal(wadd);
        reveal(wsub);
    }
    reveal(CortexM0Plus::unwound);
    let back = inside.cpu.unwound(inside.bus, inside.cpu.regs.r[14]).0;
    assert(back.regs.r =~= regs.r);
}

/// A frame inside SRAM lies below the stack pointer, not wrapped round.
pub proof fn lemma_stack_above_frame(sp: u32)
    requires
        0x2000_0000 <= frame_at(sp),
        frame_at(sp) + 32 <= 0x3000_0000,
    ensures
        wsub(sp, 32) == sp - 32,
{
    reveal(wsub);
    lemma_aligned_down(wsub(sp, 32));
}

proof fn lemma_aligned_down(x: u32)
    ensures
        x & 0xFFFF_FFF8 <= x,
        x < (x & 0xFFFF_FFF8) + 8,
{
    lemma_word_facts(x, 0, 0);
}

/// A read leaves the system control blocks alone.
proof fn lemma_reads_leave_ppb_alone(b: BusState, addr: u32, w: Width)
    ensures
        b.after_read(addr, w).ppb == b.ppb,
{
    reveal(BusState::after_read);
    reveal(BusState::after_access);
}

/// An exception counts as running from its entry to its return, and no other
/// one's mark changes.
pub proof fn law_active_between_entry_and_return(cpu: CortexM0Plus, bus: BusState, n: u32)
    requires
        can_take(cpu, bus, n),
    ensures
        ({
            let inside = cpu.entered(bus, n);
            let back = inside.cpu.unwound(inside.bus, inside.cpu.regs.r[14]).1;
            let before = bus.ppb[cpu.id()].active;
            &&& inside.bus.ppb[cpu.id()].active == before | active_bit(n)
            &&& inside.bus.ppb[cpu.id()].active != 0
            &&& back.ppb[cpu.id()].active == before & !active_bit(n)
        }),
{
    let addr = wadd(bus.ppb[cpu.id()].vtor, (4 * n) as u32);
    let vector = word_read(bus, addr).0;
    let bus1 = word_read(bus, addr).1;
    law_reads_leave_memory_alone(bus, addr, Width::Word);
    lemma_reads_leave_ppb_alone(bus, addr, Width::Word);
    let regs = cpu.regs.sp_banked();
    let sp = regs.r[13];
    let frame = frame_at(sp);
    let xpsr = (regs.xpsr & !XPSR_PADDED) | (if padded(sp) {
        XPSR_PADDED
    } else {
        0
    });
    lemma_status_round_trip(regs.xpsr, regs.control, n, regs.r[15]);
    lemma_frame_pushed(bus1, frame, regs, xpsr);
    let inside = cpu.entered(bus, n);
    let inner = regs.in_exception(n, frame, vector);
    assert(inside.cpu == cpu.with_regs(inner) && inside.bus == frame_pushed(bus1, frame, regs, xpsr).with_ppb(
        cpu.id(),
        bus.ppb[cpu.id()].with_active(n),
    )) by {
        reveal(CortexM0Plus::entered);
    }
    let bus3 = inside.bus.with_ppb(
        cpu.id(),
        inside.bus.ppb[cpu.id()].without_active(inner.sp_banked().exception_number()),
    );
    lemma_frame_popped(bus3, frame);
    lemma_mark(bus.ppb[cpu.id()].active, n as u64);
    reveal(CortexM0Plus::unwound);
}

proof fn lemma_mark(x: u64, n: u64)
    by (bit_vector)
    requires
        n < 64,
    ensures
        (x | (1u64 << n)) & !(1u64 << n) == x & !(1u64 << n),
        x | (1u64 << n) != 0,
{
}

/// With interrupts masked, or a handler running, nothing is taken, whatever
/// is pending and enabled.
pub proof fn law_masked_core_takes_nothing(cpu: CortexM0Plus, bus: BusState)
    requires
        cpu.regs.primask & 1 != 0 || bus.ppb[cpu.id()].active != 0,
    ensures
        cpu.dispatched(bus) == cpu.took(bus, 0),
{
    reveal(CortexM0Plus::dispatched);
}

/// An exception is pending for core `n`, with this number and priority.
pub open spec fn waits(bus: BusState, n: int, c: Candidate) -> bool {
    let p = bus.ppb[n];
    ||| c.number == 14 && c.priority == p.shpr[10] && p.icsr & ICSR_PENDSVSET != 0
    ||| c.number == 15 && c.priority == p.shpr[11] && p.icsr & ICSR_PENDSTSET != 0
    ||| 16 <= c.number < 48 && bus.nvics[n].asserts(c.number - 16) && c.priority == bus.nvics[n].priority[c.number
        - 16]
}

/// What is taken next waits, and comes before everything else that waits: a
/// lower priority value first, and among equals the lower number. Something
/// is taken whenever anything waits.
pub proof fn law_the_first_exception_is_taken(bus: BusState, n: int, other: Candidate)
    requires
        0 <= n < 2,
    ensures
        bus.next_exception(n) matches Some(c) ==> waits(bus, n, c),
        waits(bus, n, other) ==> (bus.next_exception(n) matches Some(c) && (c.priority < other.priority || (c.priority
            == other.priority && c.number <= other.number))),
{
    let v = bus.nvics[n];
    if exists|i: int| v.asserts(i) {
        let any = choose|i: int| v.asserts(i);
        crate::cpu::nvic::law_some_line_is_first(v, any);
        let i = choose|i: int| v.is_best(i);
        assert(v.is_best(i));
    }
}

/// A fault in waiting is delivered before anything else happens. A
/// supervisor call goes to its own handler, or with interrupts masked to the
/// hard fault handler; every other fault goes there too.
pub proof fn law_fault_is_delivered_first(cpu: CortexM0Plus, bus: BusState, f: Fault)
    requires
        !cpu.halted,
        cpu.pending_fault == Some(f),
        can_take(cpu, BusState { active_core: cpu.core_id, ..bus }, cpu.fault_number(f)),
    ensures
        ({
            let after = cpu.stepped(bus);
            &&& after.cpu.regs.exception_number() == (if f == Fault::Svc && cpu.regs.primask & 1 == 0 {
                11u32
            } else {
                3u32
            })
            &&& after.cpu.pending_fault is None
            &&& after.cycles == ENTRY_CYCLES
        }),
{
    let n = cpu.fault_number(f);
    let regs = cpu.regs.sp_banked();
    lemma_status_round_trip(regs.xpsr, regs.control, n, regs.r[15]);
    reveal(CortexM0Plus::stepped);
    reveal(CortexM0Plus::worked);
    reveal(CortexM0Plus::entered);
}

/// A return through the link register after a call with link lands behind
/// the call.
pub proof fn law_return_from_call(cpu: CortexM0Plus, bus: BusState, hw0: u16, hw1: u16)
    requires
        cpu.current_instr_addr % 2 == 0,
        !cpu.regs.in_handler(),
    ensures
        ({
            let called = cpu.branch_link(bus, hw0, hw1);
            called.cpu.special(called.bus, 0x4770).cpu.regs.r[15] == wadd(cpu.current_instr_addr, 4)
        }),
{
    reveal(CortexM0Plus::branch_link);
    reveal(CortexM0Plus::special);
    reveal(CortexM0Plus::interworked);
    reveal(wadd);
    lemma_link_bit(wadd(cpu.current_instr_addr, 4));
}

pub proof fn lemma_link_bit(x: u32)
    by (bit_vector)
    requires
        x % 2 == 0,
    ensures
        (x | 1) % 2 == 1,
        (x | 1) & 0xFFFF_FFFE == x,
        x | 1 == x + 1,
{
}

} // verus!
