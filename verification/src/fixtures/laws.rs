//! What the ready-made set-ups put in place.
use vstd::prelude::*;

use crate::bits::wadd;
use crate::bus::laws::{
    law_read_only_memories, law_sram_read, law_sram_read_gives_what_was_written, law_sram_write_is_local,
    lemma_region,
};
use crate::bus::model::BusState;
use crate::bus::sio::{core_index, Sio};
use crate::cpu::decode::DecodedOp;
use crate::cpu::systick::{ticked, SysTick, CSR_COUNTFLAG};
use crate::cpu::CortexM0Plus;
use crate::fixtures::table::lemma_planted_bytes;
use crate::fixtures::{
    handler_address, handshake_primed, nops_written, shared_vectors_written, systick_armed, table_planted,
    vectors_written, with_vectors,
};
use crate::memory::{Width, SRAM_SIZE};

verus! {

proof fn lemma_vectors(bus: BusState, n: nat, i: nat)
    requires
        n <= 48,
        i < n,
        bus.memory.sram.len() == SRAM_SIZE,
    ensures
        ({
            let b = vectors_written(bus, n);
            &&& b.memory.sram.len() == SRAM_SIZE
            &&& b.value_at((0x2000_0000 + 4 * i) as u32, Width::Word) == handler_address(i as int) | 1
        }),
    decreases n,
{
    let before = vectors_written(bus, (n - 1) as nat);
    let addr = (0x2000_0000 + 4 * (n - 1)) as u32;
    let val = handler_address(n - 1) | 1;
    if n > 1 {
        lemma_vectors(
            bus,
            (n - 1) as nat,
            if i < n - 1 {
                i
            } else {
                0
            },
        );
    }
    law_read_only_memories(before, addr, Width::Word, val);
    if i == n - 1 {
        law_sram_read_gives_what_was_written(before, addr, Width::Word, val);
    } else {
        law_sram_write_is_local(
            before,
            addr,
            Width::Word,
            val,
            (0x2000_0000 + 4 * i) as u32,
            Width::Word,
        );
    }
}

/// Entry `i` of the vector table holds its handler's address with the Thumb
/// bit, and core 0 uses the table.
pub proof fn law_vectors_are_in_place(n: nat, i: nat)
    requires
        n <= 48,
        i < n,
    ensures
        with_vectors(n).value_at((0x2000_0000 + 4 * i) as u32, Width::Word) == handler_address(i as int) | 1,
        with_vectors(n).ppb[0].vtor == 0x2000_0000,
{
    lemma_vectors(BusState::at_reset(), n, i);
    let addr = (0x2000_0000 + 4 * i) as u32;
    law_sram_read(vectors_written(BusState::at_reset(), n), addr, Width::Word);
    law_sram_read(with_vectors(n), addr, Width::Word);
}

proof fn lemma_shared_vectors(bus: BusState, base: u32, handler: u32, n: nat, i: nat)
    requires
        n <= 48,
        1 <= i < n,
        bus.memory.sram.len() == SRAM_SIZE,
        0x2000_0000 <= base,
        base - 0x2000_0000 + 0x104 <= SRAM_SIZE,
    ensures
        ({
            let b = shared_vectors_written(bus, base, handler, n);
            &&& b.memory.sram.len() == SRAM_SIZE
            &&& b.value_at((base + 4 * i) as u32, Width::Word) == handler | 1
        }),
    decreases n,
{
    let m = (n - 1) as nat;
    let before = shared_vectors_written(bus, base, handler, m);
    let addr = (base + 4 * (n - 1)) as u32;
    if m > 1 {
        lemma_shared_vectors(
            bus,
            base,
            handler,
            m,
            if i < m {
                i
            } else {
                1
            },
        );
    }
    law_read_only_memories(before, addr, Width::Word, handler | 1);
    if i == m {
        law_sram_read_gives_what_was_written(before, addr, Width::Word, handler | 1);
    } else {
        law_sram_write_is_local(before, addr, Width::Word, handler | 1, (base + 4 * i) as u32, Width::Word);
    }
}

/// In a planted table the first word is the stack pointer, and every vector
/// but the one under the handler's own code points at the handler. The
/// handler and the main program both begin with an instruction that does
/// nothing and go on to spin. No byte of SRAM outside the table and the two
/// programs has changed, and planting the table again changes nothing.
pub proof fn law_planted_table_is_in_place(bus: BusState, base: u32, i: nat)
    requires
        bus.memory.sram.len() == SRAM_SIZE,
        0x2000_0000 <= base,
        base - 0x2000_0000 + 0x104 <= SRAM_SIZE,
        1 <= i < 48,
        i != 32,
    ensures
        ({
            let b = table_planted(bus, base);
            let at = base - 0x2000_0000;
            &&& b.value_at(base, Width::Word) == 0x2002_0000
            &&& b.value_at((base + 4 * i) as u32, Width::Word) == (base + 0x80) as u32 | 1
            &&& b.value_at((base + 0x80) as u32, Width::Half) == 0xBF00
            &&& b.value_at((base + 0x82) as u32, Width::Half) == 0xE7FE
            &&& b.value_at((base + 0x100) as u32, Width::Half) == 0xBF00
            &&& b.value_at((base + 0x102) as u32, Width::Half) == 0xE7FE
            &&& b.memory.sram.len() == SRAM_SIZE
            &&& forall|p: int|
                0 <= p < SRAM_SIZE && !(at <= p < at + 0xC0) && !(at + 0x100 <= p < at + 0x104)
                    ==> #[trigger] b.memory.sram[p] == bus.memory.sram[p]
            &&& table_planted(b, base).memory.sram == b.memory.sram
        }),
{
    lemma_planted_bytes(bus, base);
    lemma_planted_bytes(table_planted(bus, base), base);
    assert(table_planted(table_planted(bus, base), base).memory.sram =~= table_planted(bus, base).memory.sram);
    law_sram_read(table_planted(bus, base), base, Width::Word);
    let handler = (base + 0x80) as u32;
    let at = (base + 4 * i) as u32;
    let b0 = bus.after_write(base, Width::Word, 0x2002_0000);
    law_read_only_memories(bus, base, Width::Word, 0x2002_0000);
    let b1 = shared_vectors_written(b0, base, handler, 48);
    lemma_shared_vectors(b0, base, handler, 48, i);
    let b2 = b1.after_write(handler, Width::Half, 0xBF00);
    law_read_only_memories(b1, handler, Width::Half, 0xBF00);
    let b3 = b2.after_write((base + 0x82) as u32, Width::Half, 0xE7FE);
    law_read_only_memories(b2, (base + 0x82) as u32, Width::Half, 0xE7FE);
    let b4 = b3.after_write((base + 0x100) as u32, Width::Half, 0xBF00);
    law_read_only_memories(b3, (base + 0x100) as u32, Width::Half, 0xBF00);
    let b5 = b4.after_write((base + 0x102) as u32, Width::Half, 0xE7FE);
    law_sram_write_is_local(b1, handler, Width::Half, 0xBF00, at, Width::Word);
    law_sram_write_is_local(b2, (base + 0x82) as u32, Width::Half, 0xE7FE, at, Width::Word);
    law_sram_write_is_local(b3, (base + 0x100) as u32, Width::Half, 0xBF00, at, Width::Word);
    law_sram_write_is_local(b4, (base + 0x102) as u32, Width::Half, 0xE7FE, at, Width::Word);
    law_sram_read_gives_what_was_written(b1, handler, Width::Half, 0xBF00);
    law_sram_write_is_local(b2, (base + 0x82) as u32, Width::Half, 0xE7FE, handler, Width::Half);
    law_sram_write_is_local(b3, (base + 0x100) as u32, Width::Half, 0xBF00, handler, Width::Half);
    law_sram_write_is_local(b4, (base + 0x102) as u32, Width::Half, 0xE7FE, handler, Width::Half);
    law_sram_read_gives_what_was_written(b2, (base + 0x82) as u32, Width::Half, 0xE7FE);
    law_sram_write_is_local(b3, (base + 0x100) as u32, Width::Half, 0xBF00, (base + 0x82) as u32, Width::Half);
    law_sram_write_is_local(b4, (base + 0x102) as u32, Width::Half, 0xE7FE, (base + 0x82) as u32, Width::Half);
    law_sram_read_gives_what_was_written(b3, (base + 0x100) as u32, Width::Half, 0xBF00);
    law_sram_write_is_local(b4, (base + 0x102) as u32, Width::Half, 0xE7FE, (base + 0x100) as u32, Width::Half);
    law_sram_read_gives_what_was_written(b4, (base + 0x102) as u32, Width::Half, 0xE7FE);
}

/// The program that does nothing is where it should be.
pub proof fn law_nops_are_in_place(bus: BusState, n: nat, i: nat)
    requires
        n <= 256,
        i < n,
        bus.memory.sram.len() == SRAM_SIZE,
    ensures
        nops_written(bus, n).memory.sram.len() == SRAM_SIZE,
        nops_written(bus, n).value_at((0x2000_1000 + 2 * i) as u32, Width::Half) == 0xBF00,
    decreases n,
{
    let before = nops_written(bus, (n - 1) as nat);
    let addr = (0x2000_1000 + 2 * (n - 1)) as u32;
    if n > 1 {
        law_nops_are_in_place(
            bus,
            (n - 1) as nat,
            if i < n - 1 {
                i
            } else {
                0
            },
        );
    }
    law_read_only_memories(before, addr, Width::Half, 0xBF00);
    if i == n - 1 {
        law_sram_read_gives_what_was_written(before, addr, Width::Half, 0xBF00);
    } else {
        law_sram_write_is_local(
            before,
            addr,
            Width::Half,
            0xBF00,
            (0x2000_1000 + 2 * i) as u32,
            Width::Half,
        );
    }
}

/// Each word of the launch sequence takes the handshake one step further.
pub proof fn law_priming_reaches_its_step(sio: Sio, n: nat)
    requires
        n <= 5,
        sio.handshake_armed,
        sio.handshake_step == 0,
    ensures
        handshake_primed(sio, n).handshake_step == n,
        handshake_primed(sio, n).handshake_armed,
        n == 5 ==> handshake_primed(sio, n).handshake_vtor == 0x2004_0000 && handshake_primed(
            sio,
            n,
        ).handshake_sp == 0x2001_0000,
    decreases n,
{
    if n > 0 {
        law_priming_reaches_its_step(sio, (n - 1) as nat);
        if n > 1 {
            law_priming_reaches_its_step(sio, (n - 2) as nat);
        }
        reveal_with_fuel(handshake_primed, 3);
    }
}

/// A write to one of the active core's SysTick registers.
proof fn lemma_systick_write(b: BusState, offset: u32, val: u32)
    requires
        offset == 0x010 || offset == 0x014 || offset == 0x018,
    ensures
        ({
            let after = b.after_write((0xE000_E000 + offset) as u32, Width::Word, val);
            &&& after.systicks[b.active()] == b.systicks[b.active()].after_write(offset, val)
            &&& after.active_core == b.active_core
        }),
{
    let addr = (0xE000_E000 + offset) as u32;
    lemma_region(addr);
    lemma_systick_words();
    reveal(BusState::after_write);
    reveal(BusState::after_update);
}

proof fn lemma_systick_words()
    by (bit_vector)
    ensures
        0xE000_E010u32 & 0xFFFF_FFFC == 0xE000_E010,
        0xE000_E014u32 & 0xFFFF_FFFC == 0xE000_E014,
        0xE000_E018u32 & 0xFFFF_FFFC == 0xE000_E018,
        0xE000_E010u32 & 0xFFF == 0x010,
        0xE000_E014u32 & 0xFFF == 0x014,
        0xE000_E018u32 & 0xFFF == 0x018,
        0u32 & 0x00FF_FFFF == 0,
        0b111u32 & 0x7 == 7,
        forall|x: u32| #![auto] ((x & 0x1_0000) | 7) & 0x1 != 0,
        forall|x: u32| #![auto] ((x & 0x1_0000) | 7) & 0x2 != 0,
        forall|x: u32| #![auto] ((x & 0x1_0000) | 7) | 0x1_0000 == 0x1_0007,
        0x1_0007u32 & 0x1 != 0,
        0x1_0007u32 & 0x2 != 0,
        0x1_0007u32 | 0x1_0000 == 0x1_0007,
{
}

/// A timer of the shortest period that asks for its exception.
pub open spec fn always_firing(s: SysTick) -> bool {
    s.fires() && s.rvr == 0 && s.cvr == 0 && (s.csr | CSR_COUNTFLAG) == 0x1_0007
}

/// An armed SysTick requests its exception on every clock.
pub proof fn law_armed_systick_fires_on_every_clock(b: BusState, n: usize, k: nat)
    ensures
        always_firing(ticked(systick_armed(b, n).systicks[core_index(n)], k)),
    decreases k,
{
    lemma_systick_words();
    if k == 0 {
        let b0 = BusState { active_core: n, ..b };
        let b1 = b0.after_write(0xE000_E014, Width::Word, 0);
        lemma_systick_write(b0, 0x014, 0);
        let b2 = b1.after_write(0xE000_E018, Width::Word, 0);
        lemma_systick_write(b1, 0x018, 0);
        lemma_systick_write(b2, 0x010, 0b111);
    } else {
        law_armed_systick_fires_on_every_clock(b, n, (k - 1) as nat);
    }
}

/// A planted branch to itself goes nowhere.
pub proof fn law_self_loop_spins(cpu: CortexM0Plus, bus: BusState)
    ensures
        ({
            let pc = cpu.regs.r[15];
            let e = cpu.executed(bus, DecodedOp { tag: pc, hw0: 0xE7FE, hw1: 0, wide: false });
            e.cpu.regs.r[15] == pc && e.bus == bus && e.cycles == 3
        }),
{
    reveal(wadd);
    reveal(CortexM0Plus::executed);
    reveal(CortexM0Plus::thumb16);
    reveal(CortexM0Plus::branch);
}

} // verus!
