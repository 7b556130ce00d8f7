//! What the tight loop counts to.
use vstd::prelude::*;

use crate::bits::{wadd, word};
use crate::bus::laws::{
    in_sram, law_read_only_memories, law_sram_read, law_sram_read_gives_what_was_written, law_sram_write,
    law_sram_write_is_local,
};
use crate::bus::model::BusState;
use crate::cpu::coherence::{code_entry, fresh, half_at, lemma_code_is_read_from_memory};
use crate::cpu::decode::{slot_of, DecodedOp};
use crate::cpu::step::fetched;
use crate::cpu::CortexM0Plus;
use crate::fixtures::runs::up_to_date;
use crate::fixtures::{advanced_by, hot_loop_start};
use crate::memory::{MemoryView, Width, SRAM_SIZE};

verus! {

/// The loop's two instructions are in memory: add one, and go back.
pub open spec fn loop_in_place(m: MemoryView) -> bool {
    &&& m.sram.len() == SRAM_SIZE
    &&& half_at(m, 0x2000_0000) == 0x3001
    &&& half_at(m, 0x2000_0002) == 0xE7FD
}

/// A core inside the loop.
pub open spec fn in_loop(cpu: CortexM0Plus, b: BusState) -> bool {
    &&& !b.fault
    &&& !b.mmio_trace_enabled
    &&& loop_in_place(b.memory)
    &&& up_to_date(cpu.decode_cache, b.memory)
    &&& cpu.regs.r[15] == 0x2000_0000 || cpu.regs.r[15] == 0x2000_0002
}

/// Whichever way an instruction of the loop is had, from the cache or from
/// memory, it is the one in memory.
proof fn lemma_loop_instruction(cpu: CortexM0Plus, b: BusState, op: DecodedOp)
    requires
        in_loop(cpu, b),
        op == (DecodedOp { tag: cpu.regs.r[15], hw0: half_at(b.memory, cpu.regs.r[15]), hw1: 0, wide: false }),
    ensures
        ({
            let e = cpu.advanced(b);
            ||| cpu.decode_cache[slot_of(op.tag)] == op && e == cpu.executed(b, op)
            ||| e == cpu.remembering(op).executed(b.after_read(op.tag, Width::Half), op)
        }),
        b.after_read(op.tag, Width::Half) == (BusState { last_access_cycles: 1, ..b }),
        up_to_date(cpu.remembering(op).decode_cache, b.memory),
{
    let pc = cpu.regs.r[15];
    reveal(wadd);
    assert(in_sram(b, pc, Width::Half));
    law_sram_read(b, pc, Width::Half);
    lemma_code_is_read_from_memory(b, pc);
    assert(fresh(b.memory, op));
    reveal(CortexM0Plus::advanced);
    match cpu.cached() {
        Some(e) => {
            assert(e == cpu.decode_cache[slot_of(pc)]);
            assert(code_entry(e));
            assert(fresh(b.memory, cpu.decode_cache[slot_of(pc)]));
            assert(e == op);
        },
        None => {
            assert(fetched(b, pc).op == Some(op) && fetched(b, pc).bus == b.after_read(pc, Width::Half)) by {
                reveal(fetched);
            }
        },
    }
}

/// The two instructions executed.
proof fn lemma_loop_executed(cpu: CortexM0Plus, b: BusState, op: DecodedOp)
    requires
        !op.wide,
        (cpu.regs.r[15] == 0x2000_0000 && op.hw0 == 0x3001) || (cpu.regs.r[15] == 0x2000_0002 && op.hw0 == 0xE7FD),
    ensures
        ({
            let e = cpu.executed(b, op);
            &&& e.bus == b
            &&& e.cpu.decode_cache == cpu.decode_cache
            &&& cpu.regs.r[15] == 0x2000_0000 ==> e.cpu.regs.r[15] == 0x2000_0002 && e.cpu.regs.r[0] == word(
                cpu.regs.r[0] + 1,
            ) && e.cycles == 1
            &&& cpu.regs.r[15] == 0x2000_0002 ==> e.cpu.regs.r[15] == 0x2000_0000 && e.cpu.regs.r[0]
                == cpu.regs.r[0] && e.cycles == 3
        }),
{
    reveal(wadd);
    reveal(CortexM0Plus::executed);
    reveal(CortexM0Plus::thumb16);
    reveal(CortexM0Plus::branch);
}

/// The cache entry of the loop's first or second instruction.
pub open spec fn loop_entry(pc: u32) -> DecodedOp {
    DecodedOp {
        tag: pc,
        hw0: if pc == 0x2000_0000 {
            0x3001
        } else {
            0xE7FD
        },
        hw1: 0,
        wide: false,
    }
}

/// One instruction further round the loop. Its entry is in the cache then,
/// and where it was there before, the cache has not changed.
proof fn lemma_round(cpu: CortexM0Plus, b: BusState)
    requires
        in_loop(cpu, b),
    ensures
        ({
            let e = cpu.advanced(b);
            let pc = cpu.regs.r[15];
            let slot = slot_of(pc);
            &&& in_loop(e.cpu, e.bus)
            &&& pc == 0x2000_0000 ==> slot == 0 && e.cpu.regs.r[15] == 0x2000_0002 && e.cpu.regs.r[0] == word(
                cpu.regs.r[0] + 1,
            )
            &&& pc == 0x2000_0002 ==> slot == 1 && e.cpu.regs.r[15] == 0x2000_0000 && e.cpu.regs.r[0]
                == cpu.regs.r[0]
            &&& e.cpu.decode_cache[slot] == loop_entry(pc)
            &&& forall|s: int|
                0 <= s < 1024 && s != slot ==> #[trigger] e.cpu.decode_cache[s] == cpu.decode_cache[s]
            &&& cpu.decode_cache[slot] == loop_entry(pc) ==> e.cpu.decode_cache == cpu.decode_cache
        }),
{
    let pc = cpu.regs.r[15];
    let op = DecodedOp { tag: pc, hw0: half_at(b.memory, pc), hw1: 0, wide: false };
    lemma_loop_instruction(cpu, b, op);
    lemma_loop_executed(cpu, b, op);
    lemma_loop_executed(cpu.remembering(op), b.after_read(pc, Width::Half), op);
    if cpu.decode_cache[slot_of(pc)] == op {
        assert(cpu.remembering(op).decode_cache =~= cpu.decode_cache);
    }
}

/// The loop as it is set up.
proof fn lemma_loop_start()
    ensures
        in_loop(hot_loop_start().0, hot_loop_start().1),
        hot_loop_start().0.regs.r[15] == 0x2000_0000,
        hot_loop_start().0.regs.r[0] == 0,
{
    let b = BusState::at_reset();
    let b1 = b.after_write(0x2000_0000, Width::Half, 0x3001);
    let b2 = b1.after_write(0x2000_0002, Width::Half, 0xE7FD);
    law_sram_write(b, 0x2000_0000, Width::Half, 0x3001);
    law_read_only_memories(b, 0x2000_0000, Width::Half, 0x3001);
    law_sram_write(b1, 0x2000_0002, Width::Half, 0xE7FD);
    law_read_only_memories(b1, 0x2000_0002, Width::Half, 0xE7FD);
    law_sram_read_gives_what_was_written(b, 0x2000_0000, Width::Half, 0x3001);
    law_sram_write_is_local(b1, 0x2000_0002, Width::Half, 0xE7FD, 0x2000_0000, Width::Half);
    law_sram_read_gives_what_was_written(b1, 0x2000_0002, Width::Half, 0xE7FD);
    lemma_code_is_read_from_memory(b2, 0x2000_0000);
    lemma_code_is_read_from_memory(b2, 0x2000_0002);
}

/// After `n` instructions of the loop the counter stands at half of them,
/// rounded up: every second one adds one. From two instructions on both are
/// in the cache, in the first two slots, and every later one is served from
/// it and leaves it alone.
pub proof fn law_hot_loop_counts(n: nat)
    ensures
        ({
            let (cpu, b) = advanced_by(hot_loop_start().0, hot_loop_start().1, n);
            &&& in_loop(cpu, b)
            &&& cpu.regs.r[15] == (if n % 2 == 0 {
                0x2000_0000u32
            } else {
                0x2000_0002u32
            })
            &&& cpu.regs.r[0] == word(((n + 1) / 2) as int)
            &&& n >= 1 ==> cpu.decode_cache[0] == loop_entry(0x2000_0000)
            &&& n >= 2 ==> {
                &&& cpu.decode_cache[1] == loop_entry(0x2000_0002)
                &&& cpu.cached() == Some(loop_entry(cpu.regs.r[15]))
                &&& cpu.advanced(b).cpu.decode_cache == cpu.decode_cache
            }
        }),
    decreases n,
{
    if n == 0 {
        lemma_loop_start();
    } else {
        law_hot_loop_counts((n - 1) as nat);
        let (cpu, b) = advanced_by(hot_loop_start().0, hot_loop_start().1, (n - 1) as nat);
        lemma_round(cpu, b);
        let e = cpu.advanced(b);
        lemma_round(e.cpu, e.bus);
    }
}

} // verus!
