//! Instructions and exceptions keep the decode cache trustworthy.
use vstd::prelude::*;

use crate::bits::{lemma_empty_word, wadd};
use crate::bus::invalidation_regions::BULK;
use crate::bus::model::BusState;
use crate::cpu::coherence::{
    code_address, code_entry, coherent, fresh, keeps_trust, lemma_code_is_read_from_memory,
    lemma_reads_keep_trust, lemma_trust_chains, lemma_trust_is_kept_where_memory_is, lemma_writes_keep_trust,
    trustworthy,
};
use crate::cpu::decode::{slot_of, DecodedOp};
use crate::cpu::exceptions::{frame_at, frame_popped, frame_pushed, padded, word_read, XPSR_PADDED};
use crate::cpu::execute::{list_loaded, list_stored, named_upto};
use crate::cpu::registers::Registers;
use crate::cpu::step::fetched;
use crate::cpu::{CortexM0Plus, Effect};
use crate::memory::{narrowed, Width};

verus! {

/// Some work kept the cache, or emptied it, and kept on the bus whatever
/// makes it trustworthy.
pub open spec fn sound(cpu: CortexM0Plus, bus: BusState, e: Effect) -> bool {
    &&& keeps_trust(bus, e.bus)
    &&& e.cpu.decode_cache == cpu.decode_cache || e.cpu.decode_cache == cpu.with_empty_cache().decode_cache
}

proof fn lemma_same(b: BusState)
    ensures
        keeps_trust(b, b),
{
    lemma_trust_is_kept_where_memory_is(b, b);
}

/// One more write.
proof fn lemma_write(a: BusState, b: BusState, addr: u32, w: Width, val: u32)
    requires
        keeps_trust(a, b),
    ensures
        keeps_trust(a, b.after_write(addr, w, val)),
{
    lemma_writes_keep_trust(b, addr, w, val);
    lemma_trust_chains(a, b, b.after_write(addr, w, val));
}

/// One more read.
proof fn lemma_read(a: BusState, b: BusState, addr: u32, w: Width)
    requires
        keeps_trust(a, b),
    ensures
        keeps_trust(a, b.after_read(addr, w)),
{
    lemma_reads_keep_trust(b, addr, w);
    lemma_trust_chains(a, b, b.after_read(addr, w));
}

/// A change to anything but memory and the waiting invalidations.
proof fn lemma_aside(a: BusState, b: BusState, c: BusState)
    requires
        keeps_trust(a, b),
        c.memory == b.memory,
        c.pending_cache_invalidations == b.pending_cache_invalidations,
        c.pending_invalidation_regions == b.pending_invalidation_regions,
    ensures
        keeps_trust(a, c),
{
    lemma_trust_is_kept_where_memory_is(b, c);
    lemma_trust_chains(a, b, c);
}

proof fn lemma_frame_pushed(b: BusState, at: u32, r: Registers, xpsr: u32)
    ensures
        keeps_trust(b, frame_pushed(b, at, r, xpsr)),
{
    reveal(frame_pushed);
    lemma_same(b);
    let b1 = b.after_write(at, Width::Word, r.r[0]);
    lemma_write(b, b, at, Width::Word, r.r[0]);
    let b2 = b1.after_write(wadd(at, 4), Width::Word, r.r[1]);
    lemma_write(b, b1, wadd(at, 4), Width::Word, r.r[1]);
    let b3 = b2.after_write(wadd(at, 8), Width::Word, r.r[2]);
    lemma_write(b, b2, wadd(at, 8), Width::Word, r.r[2]);
    let b4 = b3.after_write(wadd(at, 12), Width::Word, r.r[3]);
    lemma_write(b, b3, wadd(at, 12), Width::Word, r.r[3]);
    let b5 = b4.after_write(wadd(at, 16), Width::Word, r.r[12]);
    lemma_write(b, b4, wadd(at, 16), Width::Word, r.r[12]);
    let b6 = b5.after_write(wadd(at, 20), Width::Word, r.r[14]);
    lemma_write(b, b5, wadd(at, 20), Width::Word, r.r[14]);
    let b7 = b6.after_write(wadd(at, 24), Width::Word, r.r[15]);
    lemma_write(b, b6, wadd(at, 24), Width::Word, r.r[15]);
    lemma_write(b, b7, wadd(at, 28), Width::Word, xpsr);
}

proof fn lemma_frame_popped(b: BusState, at: u32)
    ensures
        keeps_trust(b, frame_popped(b, at).1),
{
    reveal(frame_popped);
    lemma_same(b);
    let b0 = word_read(b, at).1;
    lemma_read(b, b, at, Width::Word);
    let b1 = word_read(b0, wadd(at, 4)).1;
    lemma_read(b, b0, wadd(at, 4), Width::Word);
    let b2 = word_read(b1, wadd(at, 8)).1;
    lemma_read(b, b1, wadd(at, 8), Width::Word);
    let b3 = word_read(b2, wadd(at, 12)).1;
    lemma_read(b, b2, wadd(at, 12), Width::Word);
    let b4 = word_read(b3, wadd(at, 16)).1;
    lemma_read(b, b3, wadd(at, 16), Width::Word);
    let b5 = word_read(b4, wadd(at, 20)).1;
    lemma_read(b, b4, wadd(at, 20), Width::Word);
    let b6 = word_read(b5, wadd(at, 24)).1;
    lemma_read(b, b5, wadd(at, 24), Width::Word);
    lemma_read(b, b6, wadd(at, 28), Width::Word);
}

pub proof fn lemma_entered(cpu: CortexM0Plus, bus: BusState, n: u32)
    ensures
        sound(cpu, bus, cpu.entered(bus, n)),
{
    reveal(CortexM0Plus::entered);
    lemma_same(bus);
    let addr = wadd(bus.ppb[cpu.id()].vtor, ((4 * n) % 0x1_0000_0000) as u32);
    let bus1 = word_read(bus, addr).1;
    lemma_read(bus, bus, addr, Width::Word);
    let regs = cpu.regs.sp_banked();
    let frame = frame_at(regs.r[13]);
    let xpsr = (regs.xpsr & !XPSR_PADDED) | (if padded(regs.r[13]) {
        XPSR_PADDED
    } else {
        0
    });
    lemma_frame_pushed(bus1, frame, regs, xpsr);
    let bus2 = frame_pushed(bus1, frame, regs, xpsr);
    lemma_trust_chains(bus, bus1, bus2);
    lemma_aside(bus, bus2, bus2.with_ppb(cpu.id(), bus2.ppb[cpu.id()].with_active(n)));
}

pub proof fn lemma_dispatched(cpu: CortexM0Plus, bus: BusState)
    ensures
        sound(cpu, bus, cpu.dispatched(bus)),
{
    reveal(CortexM0Plus::dispatched);
    lemma_same(bus);
    match cpu.takes(bus) {
        Some(c) => {
            let b = bus.acknowledged(cpu.id(), c.number);
            lemma_aside(bus, bus, b);
            lemma_entered(cpu, b, c.number);
            lemma_trust_chains(bus, b, cpu.entered(b, c.number).bus);
        },
        None => {},
    }
}

proof fn lemma_exited(cpu: CortexM0Plus, bus: BusState, exc_return: u32)
    ensures
        sound(cpu, bus, cpu.exited(bus, exc_return)),
{
    reveal(CortexM0Plus::exited);
    lemma_same(bus);
    let regs = cpu.regs.sp_banked();
    let bus1 = bus.with_ppb(cpu.id(), bus.ppb[cpu.id()].without_active(regs.exception_number()));
    lemma_aside(bus, bus, bus1);
    let at = if exc_return & 0xF == 0xD {
        regs.psp
    } else {
        regs.msp
    };
    lemma_frame_popped(bus1, at);
    let (c, bus2) = cpu.unwound(bus, exc_return);
    assert(bus2 == frame_popped(bus1, at).1 && c.decode_cache == cpu.decode_cache) by {
        reveal(CortexM0Plus::unwound);
    }
    lemma_trust_chains(bus, bus1, bus2);
    lemma_dispatched(c, bus2);
    lemma_trust_chains(bus, bus2, c.dispatched(bus2).bus);
}

proof fn lemma_interworked(cpu: CortexM0Plus, bus: BusState, target: u32, cycles: u32)
    ensures
        sound(cpu, bus, cpu.interworked(bus, target, cycles)),
{
    reveal(CortexM0Plus::interworked);
    lemma_same(bus);
    lemma_exited(cpu, bus, target);
}

proof fn lemma_loaded(cpu: CortexM0Plus, bus: BusState, addr: u32, w: Width, is_signed: bool, rd: int)
    ensures
        sound(cpu, bus, cpu.loaded(bus, addr, w, is_signed, rd)),
{
    reveal(CortexM0Plus::loaded);
    lemma_same(bus);
    lemma_read(bus, bus, addr, w);
}

proof fn lemma_stored(cpu: CortexM0Plus, bus: BusState, addr: u32, w: Width, val: u32)
    ensures
        sound(cpu, bus, cpu.stored(bus, addr, w, val)),
{
    reveal(CortexM0Plus::stored);
    lemma_same(bus);
    lemma_write(bus, bus, addr, w, narrowed(val, w));
}

proof fn lemma_special(cpu: CortexM0Plus, bus: BusState, op: u16)
    ensures
        sound(cpu, bus, cpu.special(bus, op)),
{
    reveal(CortexM0Plus::special);
    lemma_same(bus);
    lemma_interworked(cpu, bus, cpu.operand((op / 8 % 16) as int), 0);
}

proof fn lemma_ls_register(cpu: CortexM0Plus, bus: BusState, op: u16)
    ensures
        sound(cpu, bus, cpu.ls_register(bus, op)),
{
    reveal(CortexM0Plus::ls_register);
    let rt = (op % 8) as int;
    let addr = wadd(cpu.regs.r[(op / 8 % 8) as int], cpu.regs.r[(op / 64 % 8) as int]);
    let val = cpu.regs.r[rt];
    lemma_stored(cpu, bus, addr, Width::Word, val);
    lemma_stored(cpu, bus, addr, Width::Half, val);
    lemma_stored(cpu, bus, addr, Width::Byte, val);
    lemma_loaded(cpu, bus, addr, Width::Byte, true, rt);
    lemma_loaded(cpu, bus, addr, Width::Word, false, rt);
    lemma_loaded(cpu, bus, addr, Width::Half, false, rt);
    lemma_loaded(cpu, bus, addr, Width::Byte, false, rt);
    lemma_loaded(cpu, bus, addr, Width::Half, true, rt);
}

proof fn lemma_ls_immediate(cpu: CortexM0Plus, bus: BusState, op: u16)
    ensures
        sound(cpu, bus, cpu.ls_immediate(bus, op)),
{
    reveal(CortexM0Plus::ls_immediate);
    let rt = (op % 8) as int;
    let base = cpu.regs.r[(op / 8 % 8) as int];
    let imm5 = (op / 64 % 32) as u32;
    let val = cpu.regs.r[rt];
    lemma_stored(cpu, bus, wadd(base, (4 * imm5) as u32), Width::Word, val);
    lemma_loaded(cpu, bus, wadd(base, (4 * imm5) as u32), Width::Word, false, rt);
    lemma_stored(cpu, bus, wadd(base, imm5), Width::Byte, val);
    lemma_loaded(cpu, bus, wadd(base, imm5), Width::Byte, false, rt);
    lemma_stored(cpu, bus, wadd(base, (2 * imm5) as u32), Width::Half, val);
    lemma_loaded(cpu, bus, wadd(base, (2 * imm5) as u32), Width::Half, false, rt);
}

proof fn lemma_relative(cpu: CortexM0Plus, bus: BusState, op: u16)
    ensures
        sound(cpu, bus, cpu.relative(bus, op)),
{
    reveal(CortexM0Plus::relative);
    lemma_same(bus);
    let rt = (op / 0x100 % 8) as int;
    let imm = (4 * (op % 0x100)) as u32;
    let pc = (cpu.pc_value() / 4 * 4) as u32;
    let sp = cpu.regs.r[13];
    lemma_loaded(cpu, bus, wadd(pc, imm), Width::Word, false, rt);
    lemma_stored(cpu, bus, wadd(sp, imm), Width::Word, cpu.regs.r[rt]);
    lemma_loaded(cpu, bus, wadd(sp, imm), Width::Word, false, rt);
}

proof fn lemma_list_stored(bus: BusState, regs: Registers, list: u32, addr: u32, n: nat)
    ensures
        keeps_trust(bus, list_stored(bus, regs, list, addr, n).0),
    decreases n,
{
    if n == 0 {
        lemma_same(bus);
    } else {
        lemma_list_stored(bus, regs, list, addr, (n - 1) as nat);
        let (b, a) = list_stored(bus, regs, list, addr, (n - 1) as nat);
        lemma_write(bus, b, a, Width::Word, regs.r[n - 1]);
    }
}

proof fn lemma_list_loaded(bus: BusState, regs: Registers, list: u32, addr: u32, n: nat)
    ensures
        keeps_trust(bus, list_loaded(bus, regs, list, addr, n).1),
    decreases n,
{
    if n == 0 {
        lemma_same(bus);
    } else {
        lemma_list_loaded(bus, regs, list, addr, (n - 1) as nat);
        let (r, b, a) = list_loaded(bus, regs, list, addr, (n - 1) as nat);
        lemma_read(bus, b, a, Width::Word);
    }
}

proof fn lemma_multiple(cpu: CortexM0Plus, bus: BusState, op: u16)
    ensures
        sound(cpu, bus, cpu.multiple(bus, op)),
{
    reveal(CortexM0Plus::multiple);
    lemma_same(bus);
    let list = (op % 0x100) as u32;
    let base = cpu.regs.r[(op / 0x100 % 8) as int];
    lemma_list_stored(bus, cpu.regs, list, base, 8);
    lemma_list_loaded(bus, cpu.regs, list, base, 8);
}

proof fn lemma_push(cpu: CortexM0Plus, bus: BusState, op: u16)
    ensures
        sound(cpu, bus, cpu.push(bus, op)),
{
    reveal(CortexM0Plus::push);
    lemma_same(bus);
    let list = (op % 0x100) as u32;
    let count = named_upto(list, 8) + (if op / 0x100 % 2 == 1 {
        1nat
    } else {
        0nat
    });
    let base = crate::bits::wsub(cpu.regs.r[13], (4 * count) as u32);
    lemma_list_stored(bus, cpu.regs, list, base, 8);
    let (b, a) = list_stored(bus, cpu.regs, list, base, 8);
    lemma_write(bus, b, a, Width::Word, cpu.regs.r[14]);
}

proof fn lemma_pop(cpu: CortexM0Plus, bus: BusState, op: u16)
    ensures
        sound(cpu, bus, cpu.pop(bus, op)),
{
    reveal(CortexM0Plus::pop);
    lemma_same(bus);
    let list = (op % 0x100) as u32;
    let count = named_upto(list, 8);
    let base = cpu.regs.r[13];
    lemma_list_loaded(bus, cpu.regs, list, base, 8);
    let (r, b, a) = list_loaded(bus, cpu.regs, list, base, 8);
    lemma_read(bus, b, a, Width::Word);
    let c = cpu.with_regs(r.with_reg(13, wadd(a, 4)));
    let b2 = b.after_read(a, Width::Word);
    let target = b.value_at(a, Width::Word);
    lemma_interworked(c, b2, target, (2 + count) as u32);
    lemma_trust_chains(bus, b2, c.interworked(b2, target, (2 + count) as u32).bus);
}

proof fn lemma_hint(cpu: CortexM0Plus, bus: BusState, op: u16)
    ensures
        sound(cpu, bus, cpu.hint(bus, op)),
{
    reveal(CortexM0Plus::hint);
    lemma_same(bus);
    lemma_aside(bus, bus, cpu.hint(bus, op).bus);
}

proof fn lemma_misc(cpu: CortexM0Plus, bus: BusState, op: u16)
    ensures
        sound(cpu, bus, cpu.misc(bus, op)),
{
    reveal(CortexM0Plus::misc);
    lemma_same(bus);
    lemma_push(cpu, bus, op);
    lemma_pop(cpu, bus, op);
    lemma_hint(cpu, bus, op);
}

proof fn lemma_thumb16(cpu: CortexM0Plus, bus: BusState, op: u16)
    ensures
        sound(cpu, bus, cpu.thumb16(bus, op)),
{
    reveal(CortexM0Plus::thumb16);
    reveal(CortexM0Plus::conditional);
    reveal(CortexM0Plus::branch);
    lemma_same(bus);
    lemma_special(cpu, bus, op);
    lemma_relative(cpu, bus, op);
    lemma_ls_register(cpu, bus, op);
    lemma_ls_immediate(cpu, bus, op);
    lemma_misc(cpu, bus, op);
    lemma_multiple(cpu, bus, op);
}

proof fn lemma_thumb32(cpu: CortexM0Plus, bus: BusState, hw0: u16, hw1: u16)
    ensures
        sound(cpu, bus, cpu.thumb32(bus, hw0, hw1)),
{
    reveal(CortexM0Plus::thumb32);
    reveal(CortexM0Plus::branch_link);
    reveal(CortexM0Plus::barrier);
    reveal(CortexM0Plus::write_special);
    reveal(CortexM0Plus::read_special);
    lemma_same(bus);
}

/// Executing an instruction keeps the cache trustworthy.
pub proof fn lemma_executed(cpu: CortexM0Plus, bus: BusState, op: DecodedOp)
    ensures
        sound(cpu, bus, cpu.executed(bus, op)),
{
    reveal(CortexM0Plus::executed);
    let pc = cpu.regs.r[15];
    let at = CortexM0Plus { current_instr_addr: pc, ..cpu };
    lemma_thumb32(at.with_regs(cpu.regs.with_reg(15, wadd(pc, 4))), bus, op.hw0, op.hw1);
    lemma_thumb16(at.with_regs(cpu.regs.with_reg(15, wadd(pc, 2))), bus, op.hw0);
}

/// What the fetch of an instruction from memory finds.
proof fn lemma_fetched(bus: BusState, pc: u32)
    ensures
        keeps_trust(bus, fetched(bus, pc).bus),
        fetched(bus, pc).bus.memory == bus.memory,
        fetched(bus, pc).op matches Some(e) ==> e.tag == pc && (code_entry(e) ==> fresh(bus.memory, e)),
{
    reveal(fetched);
    lemma_same(bus);
    lemma_read(bus, bus, pc, Width::Half);
    crate::bus::laws::law_reads_leave_memory_alone(bus, pc, Width::Half);
    let bus1 = bus.after_read(pc, Width::Half);
    lemma_read(bus, bus1, wadd(pc, 2), Width::Half);
    crate::bus::laws::law_reads_leave_memory_alone(bus1, wadd(pc, 2), Width::Half);
    if code_address(pc) {
        lemma_code_is_read_from_memory(bus, pc);
    }
    if code_address(wadd(pc, 2)) {
        lemma_code_is_read_from_memory(bus1, wadd(pc, 2));
    }
}

/// A cache that was trustworthy still is after sound work.
pub proof fn lemma_sound_work(cpu: CortexM0Plus, bus: BusState, e: Effect)
    requires
        coherent(cpu.decode_cache, bus),
        sound(cpu, bus, e),
    ensures
        coherent(e.cpu.decode_cache, e.bus),
{
    reveal(keeps_trust);
    assert forall|s: int| 0 <= s < 1024 implies trustworthy(#[trigger] e.cpu.decode_cache[s], s, e.bus) by {
        if e.cpu.decode_cache == cpu.decode_cache {
            assert(trustworthy(cpu.decode_cache[s], s, bus));
        }
    }
}

/// A trustworthy cache stays so through the fetch and execution of an
/// instruction.
pub proof fn lemma_advanced(cpu: CortexM0Plus, bus: BusState)
    requires
        coherent(cpu.decode_cache, bus),
    ensures
        coherent(cpu.advanced(bus).cpu.decode_cache, cpu.advanced(bus).bus),
        keeps_trust(bus, cpu.advanced(bus).bus),
{
    reveal(CortexM0Plus::advanced);
    let pc = cpu.regs.r[15];
    match cpu.cached() {
        Some(op) => {
            lemma_executed(cpu, bus, op);
            lemma_sound_work(cpu, bus, cpu.executed(bus, op));
        },
        None => {
            let f = fetched(bus, pc);
            lemma_fetched(bus, pc);
            lemma_sound_work(cpu, bus, cpu.took(f.bus, 1));
            match f.op {
                Some(op) => {
                    let c = cpu.remembering(op);
                    assert forall|s: int| 0 <= s < 1024 implies trustworthy(
                        #[trigger] c.decode_cache[s],
                        s,
                        f.bus,
                    ) by {
                        assert(trustworthy(cpu.decode_cache[s], s, f.bus));
                    }
                    lemma_executed(c, f.bus, op);
                    lemma_sound_work(c, f.bus, c.executed(f.bus, op));
                    lemma_trust_chains(bus, f.bus, c.executed(f.bus, op).bus);
                },
                None => {},
            }
        },
    }
}

proof fn lemma_fault_delivered(cpu: CortexM0Plus, bus: BusState)
    ensures
        sound(cpu, bus, cpu.fault_delivered(bus)),
{
    lemma_same(bus);
    match cpu.pending_fault {
        Some(f) => {
            let quiet = CortexM0Plus { pending_fault: None, ..cpu };
            lemma_entered(quiet, bus, quiet.fault_number(f));
        },
        None => {},
    }
}

proof fn lemma_worked(cpu: CortexM0Plus, bus: BusState)
    requires
        coherent(cpu.decode_cache, bus),
    ensures
        coherent(cpu.worked(bus).cpu.decode_cache, cpu.worked(bus).bus),
        keeps_trust(bus, cpu.worked(bus).bus),
{
    reveal(CortexM0Plus::worked);
    lemma_fault_delivered(cpu, bus);
    lemma_sound_work(cpu, bus, cpu.fault_delivered(bus));
    lemma_dispatched(cpu, bus);
    lemma_sound_work(cpu, bus, cpu.dispatched(bus));
    let taken = cpu.dispatched(bus);
    lemma_advanced(taken.cpu, taken.bus);
    let ran = taken.cpu.advanced(taken.bus);
    lemma_trust_chains(bus, taken.bus, ran.bus);
    let staged = ran.cpu.bus_fault_staged(ran.bus);
    lemma_same(ran.bus);
    lemma_aside(ran.bus, ran.bus, staged.bus);
    lemma_sound_work(ran.cpu, ran.bus, staged);
    lemma_trust_chains(bus, ran.bus, staged.bus);
    lemma_fault_delivered(staged.cpu, staged.bus);
    let done = staged.cpu.fault_delivered(staged.bus);
    lemma_sound_work(staged.cpu, staged.bus, done);
    lemma_trust_chains(bus, staged.bus, done.bus);
}

/// A step of a core keeps its cache trustworthy, and the other core's too.
pub proof fn law_step_keeps_caches_coherent(cpu: CortexM0Plus, bus: BusState, other: [DecodedOp; 1024])
    requires
        coherent(cpu.decode_cache, bus),
        coherent(other, bus),
    ensures
        coherent(cpu.stepped(bus).cpu.decode_cache, cpu.stepped(bus).bus),
        coherent(other, cpu.stepped(bus).bus),
{
    reveal(CortexM0Plus::stepped);
    if !cpu.halted {
        let b = BusState { active_core: cpu.core_id, ..bus };
        lemma_same(bus);
        lemma_aside(bus, bus, b);
        lemma_sound_work(cpu, bus, cpu.took(b, 0));
        lemma_worked(cpu, b);
        let e = cpu.worked(b);
        lemma_trust_chains(bus, b, e.bus);
        reveal(keeps_trust);
        assert forall|s: int| 0 <= s < 1024 implies trustworthy(#[trigger] other[s], s, e.bus) by {
            assert(trustworthy(other[s], s, bus));
        }
    }
}

/// An instruction served from a coherent cache is the one that a fetch from
/// memory finds, unless an invalidation that covers it still waits.
pub proof fn law_cached_instruction_is_the_one_in_memory(cpu: CortexM0Plus, bus: BusState)
    requires
        coherent(cpu.decode_cache, bus),
        bus.pending_cache_invalidations.len() == 0,
        bus.pending_invalidation_regions == 0,
        cpu.cached() is Some,
        code_entry(cpu.cached()->0),
        fetched(bus, cpu.regs.r[15]).op is Some,
        code_entry(fetched(bus, cpu.regs.r[15]).op->0),
    ensures
        cpu.cached() == fetched(bus, cpu.regs.r[15]).op,
{
    let pc = cpu.regs.r[15];
    let e = cpu.cached()->0;
    lemma_fetched(bus, pc);
    assert(trustworthy(cpu.decode_cache[slot_of(pc)], slot_of(pc), bus));
    lemma_no_region(pc);
}

pub proof fn lemma_no_region(tag: u32)
    ensures
        !CortexM0Plus::region_covers(0, tag),
{
    lemma_empty_word(1u32 << (tag / 0x1000_0000), 0);
    lemma_empty_word(BULK, 0);
}

} // verus!
