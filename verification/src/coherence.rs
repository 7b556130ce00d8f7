//! The decode caches of both cores stay true to memory through every step of
//! the chip.
use vstd::prelude::*;

use crate::bits::{lemma_word_facts, wadd};
use crate::bus::invalidation_regions::{BULK, ROM, SRAM, XIP};
use crate::bus::laws::{in_sram, lemma_region};
use crate::bus::model::{touched, BusState};
use crate::bus::service::transfer_width;
use crate::cpu::coherence::{
    code_entry, coherent, doomed, fresh, keeps_trust, lemma_trust_chains, lemma_reads_keep_trust,
    lemma_trust_is_kept_where_memory_is, lemma_writes_keep_trust, names, trustworthy,
};
use crate::cpu::decode::{DecodedOp, EMPTY_TAG};
use crate::cpu::trust::law_step_keeps_caches_coherent;
use crate::cpu::{law_invalidation_only_empties, law_listed_entries_are_gone, CortexM0Plus};
use crate::emulator::{longer, refreshed, settled, ticks_in, Config, EmulatorState};
use crate::memory::{MemoryView, Width, ROM_SIZE};
use crate::quantum::started;

verus! {

/// What an invalidation by region leaves of an entry.
proof fn lemma_regions_gone(cpu: CortexM0Plus, n: nat, regions: u32, s: int)
    requires
        n <= 1024,
        0 <= s < 1024,
    ensures
        ({
            let e = cpu.decode_cache[s];
            let after = cpu.without_regions_upto(n, regions).decode_cache[s];
            if s < n && CortexM0Plus::region_covers(regions, e.tag) {
                after.tag == EMPTY_TAG
            } else {
                after == e
            }
        }),
    decreases n,
{
    if n > 0 {
        lemma_regions_gone(cpu, (n - 1) as nat, regions, s);
        lemma_regions_gone(cpu, (n - 1) as nat, regions, n - 1);
    }
}

/// Once a core has caught up with the waiting invalidations, its cache is
/// coherent with none waiting.
pub proof fn law_catching_up_restores_coherence(cpu: CortexM0Plus, b: BusState)
    requires
        coherent(cpu.decode_cache, b),
    ensures
        coherent(refreshed(cpu, b).decode_cache, settled(b)),
{
    let addrs = b.pending_cache_invalidations;
    let regions = b.pending_invalidation_regions;
    let listed = cpu.without_listed(addrs, addrs.len());
    let after = refreshed(cpu, b);
    assert forall|s: int| 0 <= s < 1024 implies trustworthy(#[trigger] after.decode_cache[s], s, settled(b)) by {
        let e = after.decode_cache[s];
        if code_entry(e) {
            lemma_regions_gone(listed, 1024, regions, s);
            law_invalidation_only_empties(cpu, addrs, addrs.len(), s);
            crate::cpu::trust::lemma_no_region(e.tag);
            assert(e == cpu.decode_cache[s]);
            assert(trustworthy(cpu.decode_cache[s], s, b));
            if doomed(e, b) {
                if !CortexM0Plus::region_covers(regions, e.tag) {
                    let k = choose|k: int| 0 <= k < addrs.len() && names(#[trigger] addrs[k], e.tag);
                    law_listed_entries_are_gone(cpu, addrs, addrs.len(), k, e.tag);
                }
            }
            assert(fresh(b.memory, e));
        }
    }
}

/// Both caches are coherent with the bus.
pub open spec fn caches_coherent(e: EmulatorState) -> bool {
    coherent(e.core0.decode_cache, e.bus) && coherent(e.core1.decode_cache, e.bus)
}

proof fn lemma_kept(cache: [DecodedOp; 1024], b: BusState, after: BusState)
    requires
        coherent(cache, b),
        keeps_trust(b, after),
    ensures
        coherent(cache, after),
{
    reveal(keeps_trust);
    assert forall|s: int| 0 <= s < 1024 implies trustworthy(#[trigger] cache[s], s, after) by {
        assert(trustworthy(cache[s], s, b));
    }
}

/// A change to anything but memory and the waiting invalidations.
proof fn lemma_aside(cache: [DecodedOp; 1024], b: BusState, after: BusState)
    requires
        coherent(cache, b),
        after.memory == b.memory,
        after.pending_cache_invalidations == b.pending_cache_invalidations,
        after.pending_invalidation_regions == b.pending_invalidation_regions,
    ensures
        coherent(cache, after),
{
    lemma_trust_is_kept_where_memory_is(b, after);
    lemma_kept(cache, b, after);
}

proof fn lemma_launch(e: EmulatorState)
    requires
        caches_coherent(e),
    ensures
        caches_coherent(e.launch_taken()),
{
    lemma_aside(e.core0.decode_cache, e.bus, e.launch_taken().bus);
    lemma_aside(e.core1.decode_cache, e.bus, e.launch_taken().bus);
}

proof fn lemma_systick_ticks(b: BusState, n: int, count: nat)
    ensures
        b.after_systick_ticks(n, count).memory == b.memory,
        b.after_systick_ticks(n, count).pending_cache_invalidations == b.pending_cache_invalidations,
        b.after_systick_ticks(n, count).pending_invalidation_regions == b.pending_invalidation_regions,
    decreases count,
{
    if count > 0 {
        lemma_systick_ticks(b, n, (count - 1) as nat);
        reveal(BusState::after_systick_tick);
    }
}

proof fn lemma_pair_finished(e: EmulatorState, c0: u32, c1: u32)
    requires
        caches_coherent(e),
    ensures
        caches_coherent(e.pair_finished(c0, c1)),
{
    let b0 = e.bus.after_systick_ticks(0, c0 as nat);
    let b1 = b0.after_systick_ticks(1, c1 as nat);
    lemma_systick_ticks(e.bus, 0, c0 as nat);
    lemma_systick_ticks(b0, 1, c1 as nat);
    let after = BusState {
        master_cycle: ((b1.master_cycle + longer(c0, c1)) % 0x1_0000_0000_0000_0000) as u64,
        ..settled(b1)
    };
    lemma_aside(e.core0.decode_cache, e.bus, b1);
    law_catching_up_restores_coherence(e.core0, b1);
    lemma_aside(refreshed(e.core0, b1).decode_cache, settled(b1), after);
    lemma_aside(e.core1.decode_cache, e.bus, b1);
    law_catching_up_restores_coherence(e.core1, b1);
    lemma_aside(refreshed(e.core1, b1).decode_cache, settled(b1), after);
    lemma_launch(EmulatorState { core0: refreshed(e.core0, b1), core1: refreshed(e.core1, b1), bus: after, ..e });
}

/// One instruction of each core leaves both caches coherent.
pub proof fn law_pair_keeps_caches_coherent(e: EmulatorState)
    requires
        caches_coherent(e),
    ensures
        caches_coherent(e.pair_stepped().0),
{
    reveal(EmulatorState::pair_stepped);
    let a = if e.bus.parked(0) {
        e.core0.took(e.bus, 0)
    } else {
        e.core0.stepped(e.bus)
    };
    law_step_keeps_caches_coherent(e.core0, e.bus, e.core1.decode_cache);
    let b = if a.bus.parked(1) {
        e.core1.took(a.bus, 0)
    } else {
        e.core1.stepped(a.bus)
    };
    law_step_keeps_caches_coherent(e.core1, a.bus, a.cpu.decode_cache);
    lemma_pair_finished(
        EmulatorState { core0: a.cpu, core1: b.cpu, bus: b.bus, ..e },
        a.cycles,
        b.cycles,
    );
}

proof fn lemma_ran(e: EmulatorState, spent: nat, budget: nat)
    requires
        caches_coherent(e),
    ensures
        caches_coherent(e.ran(spent, budget).0),
    decreases
            if spent < budget {
                budget - spent
            } else {
                0
            },
{
    if spent < budget {
        law_pair_keeps_caches_coherent(e);
        let (next, cycles) = e.pair_stepped();
        if cycles > 0 {
            lemma_ran(next, spent + cycles as nat, budget);
        }
    }
}

proof fn lemma_transfer(b: BusState, n: int)
    ensures
        keeps_trust(b, b.after_transfer(n)),
{
    let c = b.dma.channels[n];
    let w = transfer_width(c);
    let b1 = b.after_read(c.read_addr, w);
    let b2 = b1.after_write(c.write_addr, w, b.value_at(c.read_addr, w));
    lemma_reads_keep_trust(b, c.read_addr, w);
    lemma_writes_keep_trust(b1, c.write_addr, w, b.value_at(c.read_addr, w));
    lemma_trust_chains(b, b1, b2);
    lemma_trust_is_kept_where_memory_is(b2, b.after_transfer(n));
    lemma_trust_chains(b, b2, b.after_transfer(n));
}

proof fn lemma_dma_ticks(b: BusState, n: nat)
    ensures
        keeps_trust(b, b.after_dma_ticks(n)),
    decreases n,
{
    if n == 0 {
        lemma_trust_is_kept_where_memory_is(b, b);
    } else {
        let c = b.after_dma_ticks((n - 1) as nat);
        lemma_dma_ticks(b, (n - 1) as nat);
        reveal(BusState::after_dma_tick);
        let moved = match c.dma.first_ready_from(0, c.dreqs()) {
            Some(k) => {
                lemma_transfer(c, k);
                c.after_transfer(k)
            },
            None => {
                lemma_trust_is_kept_where_memory_is(c, c);
                c
            },
        };
        lemma_trust_chains(b, c, moved);
        lemma_trust_is_kept_where_memory_is(moved, c.after_dma_tick());
        lemma_trust_chains(b, moved, c.after_dma_tick());
    }
}

proof fn lemma_serviced(e: EmulatorState, cycles: u64)
    requires
        caches_coherent(e),
    ensures
        caches_coherent(e.serviced(cycles)),
{
    let now = ((e.clock + cycles) % 0x1_0000_0000_0000_0000) as u64;
    let n = ticks_in(cycles);
    let b0 = BusState { master_cycle: now, ..e.bus };
    let b3 = b0.after_peripheral_ticks(n).after_pio_ticks(n);
    assert(b3.memory == b0.memory && b3.pending_cache_invalidations == b0.pending_cache_invalidations
        && b3.pending_invalidation_regions == b0.pending_invalidation_regions) by {
        reveal(BusState::after_peripheral_ticks);
        reveal(BusState::after_pio_ticks);
    }
    lemma_dma_ticks(b3, n as nat);
    let b4 = b3.after_dma_ticks(n as nat);
    let moved = b4.after_alarms(now).irqs_latched().pins_merged();
    assert(moved.memory == b4.memory && moved.pending_cache_invalidations == b4.pending_cache_invalidations
        && moved.pending_invalidation_regions == b4.pending_invalidation_regions) by {
        reveal(BusState::after_alarms);
        reveal(BusState::irqs_latched);
        reveal(BusState::pins_merged);
    }
    let done = settled(moved).unparked(0).unparked(1);
    reveal(EmulatorState::serviced);
    reveal(BusState::time_passed);
    lemma_aside(e.core0.decode_cache, e.bus, b3);
    lemma_kept(e.core0.decode_cache, b3, b4);
    lemma_aside(e.core0.decode_cache, b4, moved);
    law_catching_up_restores_coherence(e.core0, moved);
    lemma_aside(refreshed(e.core0, moved).decode_cache, settled(moved), done);
    lemma_aside(e.core1.decode_cache, e.bus, b3);
    lemma_kept(e.core1.decode_cache, b3, b4);
    lemma_aside(e.core1.decode_cache, b4, moved);
    law_catching_up_restores_coherence(e.core1, moved);
    lemma_aside(refreshed(e.core1, moved).decode_cache, settled(moved), done);
}

/// Whatever the two cores and the DMA controller write, a step leaves both
/// decode caches true to memory.
pub proof fn law_stepping_keeps_caches_coherent(e: EmulatorState)
    requires
        caches_coherent(e),
    ensures
        caches_coherent(e.stepped().0),
{
    lemma_aside(e.core0.decode_cache, e.bus, started(e).bus);
    lemma_aside(e.core1.decode_cache, e.bus, started(e).bus);
    lemma_ran(started(e), 0, e.budget());
    let (ran, spent) = started(e).ran(0, e.budget());
    lemma_serviced(ran, e.stepped().1 as u64);
}

/// A fresh chip's caches are empty, and so coherent.
pub proof fn law_fresh_caches_are_coherent(config: Config)
    ensures
        caches_coherent(EmulatorState::at_reset(config)),
{
}

/// The bit of a loaded region condemns what was cached from it, and whatever
/// was condemned stays so.
proof fn lemma_region_bits(regions: u32, tag: u32)
    ensures
        tag < 0x1000_0000 ==> CortexM0Plus::region_covers(regions | ROM, tag),
        0x1000_0000 <= tag < 0x2000_0000 ==> CortexM0Plus::region_covers(regions | XIP, tag),
        0x2000_0000 <= tag < 0x3000_0000 ==> CortexM0Plus::region_covers(regions | SRAM, tag),
        CortexM0Plus::region_covers(regions, tag) ==> CortexM0Plus::region_covers(regions | ROM, tag)
            && CortexM0Plus::region_covers(regions | XIP, tag) && CortexM0Plus::region_covers(regions | SRAM, tag),
{
    lemma_bits_stay(regions, 1u32 << (tag / 0x1000_0000));
    lemma_bits_stay(regions, BULK);
}

proof fn lemma_bits_stay(r: u32, m: u32)
    ensures
        r & m != 0 ==> (r | 1) & m != 0 && (r | 2) & m != 0 && (r | 4) & m != 0,
        (r | 1) & (1u32 << 0) != 0,
        (r | 2) & (1u32 << 1) != 0,
        (r | 4) & (1u32 << 2) != 0,
{
    lemma_word_facts(r, m, 0);
}

/// A wide instruction that memory holds does not begin in one region and end
/// in another: the boot ROM ends long before its region does.
proof fn lemma_wide_stays_in_region(m: MemoryView, e: DecodedOp)
    requires
        code_entry(e),
        e.wide,
        fresh(m, e),
        m.rom.len() == ROM_SIZE,
    ensures
        e.tag / 0x1000_0000 == wadd(e.tag, 2) / 0x1000_0000,
{
    reveal(wadd);
}

proof fn lemma_poke(b: BusState, addr: u32, val: u32)
    ensures
        keeps_trust(b, b.poked(addr, val)),
{
    lemma_region(addr);
    let after = b.poked(addr, val);
    if addr >> 28 == 2 && !in_sram(b, addr, Width::Word) {
        assert forall|op: DecodedOp, s: int| trustworthy(op, s, b) implies #[trigger] trustworthy(op, s, after) by {
            if doomed(op, b) {
                lemma_still_doomed(op, b, after, touched(addr, Width::Word));
            }
        }
        assert(keeps_trust(b, after)) by {
            reveal(keeps_trust);
        }
    } else if addr >> 28 == 2 || addr >> 24 == 0x15 {
        let written = b.after_write(addr, Width::Word, val);
        lemma_writes_keep_trust(b, addr, Width::Word, val);
        assert(written.memory == after.memory && written.pending_cache_invalidations
            == after.pending_cache_invalidations && written.pending_invalidation_regions
            == after.pending_invalidation_regions) by {
            reveal(BusState::after_write);
            reveal(BusState::after_update);
        }
        lemma_trust_is_kept_where_memory_is(written, after);
        lemma_trust_chains(b, written, after);
    } else {
        lemma_trust_is_kept_where_memory_is(b, after);
    }
}

proof fn lemma_still_doomed(e: DecodedOp, b: BusState, after: BusState, more: Seq<u32>)
    requires
        doomed(e, b),
        after.pending_cache_invalidations == b.pending_cache_invalidations + more,
        after.pending_invalidation_regions == b.pending_invalidation_regions,
    ensures
        doomed(e, after),
{
    let list = b.pending_cache_invalidations;
    if !CortexM0Plus::region_covers(b.pending_invalidation_regions, e.tag) {
        let k = choose|k: int| 0 <= k < list.len() && names(#[trigger] list[k], e.tag);
        assert((list + more)[k] == list[k]);
    }
}

/// Laying an image into memory leaves nothing stale behind in either cache.
pub proof fn law_loading_keeps_caches_coherent(e: EmulatorState, addr: u32, data: Seq<u8>)
    requires
        caches_coherent(e),
        e.bus.memory.rom.len() == ROM_SIZE,
    ensures
        caches_coherent((EmulatorState { bus: e.bus.imaged(addr, data), ..e }).caught_up()),
{
    let b = e.bus;
    let after = b.imaged(addr, data);
    assert forall|op: DecodedOp, s: int| trustworthy(op, s, b) implies #[trigger] trustworthy(op, s, after) by {
        lemma_region_bits(b.pending_invalidation_regions, op.tag);
        if code_entry(op) && op.wide && fresh(b.memory, op) {
            lemma_wide_stays_in_region(b.memory, op);
        }
        if doomed(op, b) {
            assert(doomed(op, after));
        }
    }
    assert(keeps_trust(b, after)) by {
        reveal(keeps_trust);
    }
    lemma_kept(e.core0.decode_cache, b, after);
    lemma_kept(e.core1.decode_cache, b, after);
    law_catching_up_restores_coherence(e.core0, after);
    law_catching_up_restores_coherence(e.core1, after);
}

/// Setting a word from outside leaves nothing stale behind either.
pub proof fn law_poking_keeps_caches_coherent(e: EmulatorState, addr: u32, val: u32)
    requires
        caches_coherent(e),
    ensures
        caches_coherent((EmulatorState { bus: e.bus.poked(addr, val), ..e }).caught_up()),
{
    let b = e.bus;
    let after = b.poked(addr, val);
    lemma_poke(b, addr, val);
    lemma_kept(e.core0.decode_cache, b, after);
    lemma_kept(e.core1.decode_cache, b, after);
    law_catching_up_restores_coherence(e.core0, after);
    law_catching_up_restores_coherence(e.core1, after);
}

} // verus!
