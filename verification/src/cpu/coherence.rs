//! The decode cache never serves an instruction that memory no longer holds.
use vstd::prelude::*;

use crate::bits::{wadd, wsub};
use crate::bus::laws::{law_reads_leave_memory_alone, lemma_peripheral_writes_leave_memory_alone, lemma_region};
use crate::bus::model::{touched, BusState};
use crate::cpu::decode::{slot_of, wide_prefix, DecodedOp};
use crate::cpu::CortexM0Plus;
use crate::memory::{fits, law_load_after_store, law_store_is_local, load_or_zero, store, MemoryView, Width};

verus! {

/// An even address in one of the memories: boot ROM, flash, the flash cache
/// used as memory, SRAM.
pub open spec fn code_address(pc: u32) -> bool {
    pc % 2 == 0 && (pc < 0x1400_0000 || 0x1500_0000 <= pc < 0x1600_0000 || 0x2000_0000 <= pc < 0x3000_0000)
}

/// The halfword that memory holds at such an address.
pub open spec fn half_at(m: MemoryView, pc: u32) -> u16 {
    let at = (pc % 0x100_0000) as int;
    (if pc < 0x1000_0000 {
        load_or_zero(m.rom, pc as int, Width::Half)
    } else if pc < 0x1400_0000 {
        load_or_zero(m.flash, at, Width::Half)
    } else if pc < 0x1600_0000 {
        load_or_zero(m.xip_sram, at, Width::Half)
    } else {
        load_or_zero(m.sram, pc - 0x2000_0000, Width::Half)
    }) as u16
}

/// A cached instruction all of which comes from memory.
pub open spec fn code_entry(e: DecodedOp) -> bool {
    code_address(e.tag) && (e.wide ==> code_address(wadd(e.tag, 2)))
}

/// A cached instruction is what memory holds.
pub open spec fn fresh(m: MemoryView, e: DecodedOp) -> bool {
    &&& e.hw0 == half_at(m, e.tag)
    &&& e.wide == wide_prefix(e.hw0)
    &&& e.hw1 == (if e.wide {
        half_at(m, wadd(e.tag, 2))
    } else {
        0
    })
}

/// An invalidation that waits on the bus covers a cached instruction.
pub open spec fn doomed(e: DecodedOp, b: BusState) -> bool {
    ||| exists|k: int|
        0 <= k < b.pending_cache_invalidations.len() && names(#[trigger] b.pending_cache_invalidations[k], e.tag)
    ||| CortexM0Plus::region_covers(b.pending_invalidation_regions, e.tag)
}

/// A write to the halfword at `addr` touches an instruction at `tag`, or a
/// wide one that begins two bytes earlier.
pub open spec fn names(addr: u32, tag: u32) -> bool {
    tag == addr || tag == wsub(addr, 2)
}

/// A cached instruction in slot `s` is where it belongs, and is either what
/// memory holds or about to be dropped.
pub open spec fn trustworthy(e: DecodedOp, s: int, b: BusState) -> bool {
    code_entry(e) ==> slot_of(e.tag) == s && (fresh(b.memory, e) || doomed(e, b))
}

/// Every entry of a cache is.
pub open spec fn coherent(cache: [DecodedOp; 1024], b: BusState) -> bool {
    forall|s: int| 0 <= s < 1024 ==> trustworthy(#[trigger] cache[s], s, b)
}

/// What was trustworthy on one bus still is on another.
#[verifier::opaque]
pub open spec fn keeps_trust(b: BusState, after: BusState) -> bool {
    forall|e: DecodedOp, s: int| trustworthy(e, s, b) ==> #[trigger] trustworthy(e, s, after)
}

/// Memory reads of code are bus reads.
pub proof fn lemma_code_is_read_from_memory(b: BusState, pc: u32)
    requires
        code_address(pc),
    ensures
        b.value_at(pc, Width::Half) as u16 == half_at(b.memory, pc),
        b.value_at(pc, Width::Half) < 0x1_0000,
{
    lemma_region(pc);
    reveal(BusState::value_at);
}

pub proof fn lemma_trust_is_kept_where_memory_is(b: BusState, after: BusState)
    requires
        after.memory == b.memory,
        after.pending_cache_invalidations == b.pending_cache_invalidations,
        after.pending_invalidation_regions == b.pending_invalidation_regions,
    ensures
        keeps_trust(b, after),
{
    reveal(keeps_trust);
    assert forall|e: DecodedOp, s: int| trustworthy(e, s, b) implies #[trigger] trustworthy(e, s, after) by {
        assert(doomed(e, b) == doomed(e, after));
    }
}

pub proof fn lemma_trust_chains(a: BusState, b: BusState, c: BusState)
    requires
        keeps_trust(a, b),
        keeps_trust(b, c),
    ensures
        keeps_trust(a, c),
{
    reveal(keeps_trust);
    assert forall|e: DecodedOp, s: int| trustworthy(e, s, a) implies #[trigger] trustworthy(e, s, c) by {
        assert(trustworthy(e, s, b));
    }
}

/// No read makes a cached instruction stale.
pub proof fn lemma_reads_keep_trust(b: BusState, addr: u32, w: Width)
    ensures
        keeps_trust(b, b.after_read(addr, w)),
{
    law_reads_leave_memory_alone(b, addr, w);
    lemma_trust_is_kept_where_memory_is(b, b.after_read(addr, w));
}

/// A write of `w` bytes at `addr` either leaves a halfword alone or puts it
/// on the list.
proof fn lemma_touched_covers(addr: u32, w: Width, tag: u32)
    requires
        tag % 2 == 0,
        addr + w.bytes() <= 0xFFFF_FFF0,
        tag < addr + w.bytes(),
        addr < tag + 2,
    ensures
        touched(addr, w).contains(tag),
{
    lemma_region(addr);
    reveal(wadd);
    let list = touched(addr, w);
    let first = addr - addr % 2;
    if tag == first {
        assert(list[0] == tag);
    } else if tag == first + 2 {
        assert(list[1] == tag);
    } else {
        assert(list[2] == tag);
    }
}

/// After a store of `w` bytes, a halfword is as it was or on the list.
proof fn lemma_half_after_store(s: Seq<u8>, base: u32, addr: u32, w: Width, val: u32, tag: u32)
    requires
        base <= addr,
        base <= tag,
        tag % 2 == 0,
        addr + w.bytes() <= 0xFFFF_FFF0,
        fits(s, addr - base, w),
    ensures
        load_or_zero(store(s, addr - base, w, val), tag - base, Width::Half) == load_or_zero(
            s,
            tag - base,
            Width::Half,
        ) || touched(addr, w).contains(tag),
{
    law_load_after_store(s, addr - base, w, val);
    if tag < addr + w.bytes() && addr < tag + 2 {
        lemma_touched_covers(addr, w, tag);
    } else if fits(s, tag - base, Width::Half) {
        law_store_is_local(s, addr - base, w, val, tag - base, Width::Half);
    }
}

/// What a write does to memory and to the list of halfwords it touched.
proof fn lemma_half_after_write(b: BusState, addr: u32, w: Width, val: u32, tag: u32)
    requires
        code_address(tag),
    ensures
        half_at(b.after_write(addr, w, val).memory, tag) == half_at(b.memory, tag) || ({
            let list = b.after_write(addr, w, val).pending_cache_invalidations;
            list == b.pending_cache_invalidations + touched(addr, w) && touched(addr, w).contains(tag)
        }),
{
    lemma_region(addr);
    lemma_region(tag);
    reveal(BusState::after_write);
    reveal(BusState::after_update);
    if addr >> 28 == 1 {
        let at = (addr % 0x100_0000) as int;
        if addr >> 24 == 0x15 && fits(b.memory.xip_sram, at, w) && 0x1500_0000 <= tag < 0x1600_0000 {
            lemma_half_after_store(b.memory.xip_sram, 0x1500_0000, addr, w, val, tag);
        }
    } else if addr >> 28 == 2 {
        if fits(b.memory.sram, addr - 0x2000_0000, w) && tag >= 0x2000_0000 {
            lemma_half_after_store(b.memory.sram, 0x2000_0000, addr, w, val, tag);
        }
    } else {
        lemma_peripheral_writes_leave_memory_alone(b, addr, w, val);
    }
}

/// The list only grows, and the regions stay.
proof fn lemma_list_grows(b: BusState, addr: u32, w: Width, val: u32)
    ensures
        ({
            let after = b.after_write(addr, w, val);
            ||| after.pending_cache_invalidations == b.pending_cache_invalidations
            ||| after.pending_cache_invalidations == b.pending_cache_invalidations + touched(addr, w)
        }),
        b.after_write(addr, w, val).pending_invalidation_regions == b.pending_invalidation_regions,
{
    reveal(BusState::after_write);
    reveal(BusState::after_update);
    if addr >> 28 != 1 && addr >> 28 != 2 {
        lemma_peripheral_writes_leave_memory_alone(b, addr, w, val);
    }
}

/// No write makes a cached instruction stale without condemning it.
pub proof fn lemma_writes_keep_trust(b: BusState, addr: u32, w: Width, val: u32)
    ensures
        keeps_trust(b, b.after_write(addr, w, val)),
{
    reveal(keeps_trust);
    let after = b.after_write(addr, w, val);
    let old_list = b.pending_cache_invalidations;
    let list = after.pending_cache_invalidations;
    lemma_list_grows(b, addr, w, val);
    assert forall|e: DecodedOp, s: int| trustworthy(e, s, b) implies #[trigger] trustworthy(e, s, after) by {
        if code_entry(e) {
            if doomed(e, b) {
                if !CortexM0Plus::region_covers(b.pending_invalidation_regions, e.tag) {
                    let k = choose|k: int| 0 <= k < old_list.len() && names(#[trigger] old_list[k], e.tag);
                    assert(list[k] == old_list[k]);
                }
                assert(doomed(e, after));
            } else {
                lemma_half_after_write(b, addr, w, val, e.tag);
                if half_at(after.memory, e.tag) != half_at(b.memory, e.tag) {
                    lemma_listed(old_list, touched(addr, w), e.tag, e.tag);
                    assert(doomed(e, after));
                } else if e.wide {
                    let second = wadd(e.tag, 2);
                    lemma_half_after_write(b, addr, w, val, second);
                    if half_at(after.memory, second) != half_at(b.memory, second) {
                        assert(wsub(second, 2) == e.tag) by {
                            reveal(wadd);
                            reveal(wsub);
                        }
                        lemma_listed(old_list, touched(addr, w), second, e.tag);
                        assert(doomed(e, after));
                    }
                }
            }
        }
    }
}

/// A halfword on the list condemns what it names.
proof fn lemma_listed(old_list: Seq<u32>, more: Seq<u32>, addr: u32, tag: u32)
    requires
        more.contains(addr),
        names(addr, tag),
    ensures
        exists|k: int| 0 <= k < (old_list + more).len() && names(#[trigger] (old_list + more)[k], tag),
{
    let j = choose|j: int| 0 <= j < more.len() && more[j] == addr;
    assert((old_list + more)[old_list.len() + j] == addr);
}

} // verus!
