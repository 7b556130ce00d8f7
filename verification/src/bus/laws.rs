//! What holds of the bus as a whole: memories keep what is written, reads
//! leave them alone, and peripherals in reset do not answer.
use vstd::prelude::*;

use crate::bits::{aliased, lemma_address_facts, lemma_empty_word};
use crate::bus::model::{in_lane, merged, store_index, touched, BusState};
use crate::bus::peripheral_dispatch::{reset_line, RESET_MASK};
use crate::bus::{
    TraceEntry, ADC_BASE, DMA_BASE, I2C0_BASE, I2C1_BASE, PLL_SYS_BASE, PLL_USB_BASE, PWM_BASE, RESETS_BASE, SPI0_BASE,
    SPI1_BASE, SYSINFO_BASE, TIMER_BASE, UART0_BASE, UART1_BASE, WATCHDOG_BASE,
};
use crate::clocks::{locked, PLL_CS_LOCK};
use crate::memory::{
    fits, law_load_after_store, law_store_is_local, load, narrowed, store, MemoryView, Width,
};

verus! {

/// The parts of an address: its region, its place in the region, and what is
/// left of it on a word, on a halfword or on a block of registers.
pub proof fn lemma_region(addr: u32)
    ensures
        addr >> 28 == addr / 0x1000_0000,
        addr >> 24 == addr / 0x100_0000,
        addr & 0x00FF_FFFF == addr % 0x100_0000,
        addr & 0xFFFF_FFFE == addr - addr % 2,
        (addr & 0xFFFF_FFFC) & 0xFFFF_C000 == addr & 0xFFFF_C000,
{
    lemma_address_facts(addr);
}

/// The address of a register, by the plain port of its block.
pub proof fn lemma_register_address(addr: u32, base: u32, offset: u32)
    by (bit_vector)
    requires
        base % 0x4000 == 0,
        offset < 0x1000,
        addr == base + offset,
    ensures
        addr >> 28 == base >> 28,
        addr & 0xFFFF_C000 == base,
        addr & 0xFFF == offset,
        (addr >> 12) & 0x3 == 0,
{
}

/// An access of width `w` at `addr` lies inside SRAM.
pub open spec fn in_sram(b: BusState, addr: u32, w: Width) -> bool {
    0x2000_0000 <= addr < 0x3000_0000 && fits(b.memory.sram, addr - 0x2000_0000, w)
}

/// What a write inside SRAM does to the bus, in full.
pub proof fn law_sram_write(b: BusState, addr: u32, w: Width, val: u32)
    requires
        in_sram(b, addr, w),
    ensures
        b.after_write(addr, w, val) == (BusState {
            memory: MemoryView { sram: store(b.memory.sram, addr - 0x2000_0000, w, val), ..b.memory },
            pending_cache_invalidations: b.pending_cache_invalidations + touched(addr, w),
            last_access_cycles: 1,
            ..b
        }).traced(TraceEntry { write: true, width: w, addr, value: val }),
{
    lemma_region(addr);
    reveal(BusState::after_write);
    reveal(BusState::after_update);
}

/// What a read inside SRAM gives and does, in full.
pub proof fn law_sram_read(b: BusState, addr: u32, w: Width)
    requires
        in_sram(b, addr, w),
    ensures
        b.value_at(addr, w) == load(b.memory.sram, addr - 0x2000_0000, w),
        b.after_read(addr, w) == (BusState { last_access_cycles: 1, ..b }).traced(
            TraceEntry { write: false, width: w, addr, value: b.value_at(addr, w) },
        ),
{
    lemma_region(addr);
    reveal(BusState::value_at);
    reveal(BusState::after_read);
    reveal(BusState::after_access);
}

/// SRAM gives back what was written, cut to the width of the access.
pub proof fn law_sram_read_gives_what_was_written(b: BusState, addr: u32, w: Width, val: u32)
    requires
        in_sram(b, addr, w),
    ensures
        b.after_write(addr, w, val).value_at(addr, w) == narrowed(val, w),
        b.after_write(addr, w, val).fault == b.fault,
        in_sram(b.after_write(addr, w, val), addr, w),
{
    law_sram_write(b, addr, w, val);
    law_load_after_store(b.memory.sram, addr - 0x2000_0000, w, val);
    law_sram_read(b.after_write(addr, w, val), addr, w);
}

/// A write inside SRAM changes no byte outside the bytes it names.
pub proof fn law_sram_write_is_local(b: BusState, addr: u32, w: Width, val: u32, other: u32, v: Width)
    requires
        in_sram(b, addr, w),
        in_sram(b, other, v),
        other + v.bytes() <= addr || addr + w.bytes() <= other,
    ensures
        b.after_write(addr, w, val).value_at(other, v) == b.value_at(other, v),
        in_sram(b.after_write(addr, w, val), other, v),
{
    law_sram_write(b, addr, w, val);
    law_load_after_store(b.memory.sram, addr - 0x2000_0000, w, val);
    law_sram_read(b.after_write(addr, w, val), other, v);
    law_sram_read(b, other, v);
    law_store_is_local(b.memory.sram, addr - 0x2000_0000, w, val, other - 0x2000_0000, v);
}

/// No read changes any memory, wherever it goes.
pub proof fn law_reads_leave_memory_alone(b: BusState, addr: u32, w: Width)
    ensures
        b.after_read(addr, w).memory == b.memory,
        b.after_read(addr, w).pending_cache_invalidations == b.pending_cache_invalidations,
        b.after_read(addr, w).pending_invalidation_regions == b.pending_invalidation_regions,
{
    reveal(BusState::after_read);
    reveal(BusState::after_access);
}

/// The boot ROM and the flash ignore writes, and no write changes the size
/// of a memory.
pub proof fn law_read_only_memories(b: BusState, addr: u32, w: Width, val: u32)
    ensures
        b.after_write(addr, w, val).memory.rom == b.memory.rom,
        b.after_write(addr, w, val).memory.flash == b.memory.flash,
        b.after_write(addr, w, val).memory.sram.len() == b.memory.sram.len(),
        b.after_write(addr, w, val).memory.xip_sram.len() == b.memory.xip_sram.len(),
{
    lemma_region(addr);
    if addr >> 28 == 1 {
        let at = (addr & 0x00FF_FFFF) as int;
        if fits(b.memory.xip_sram, at, w) {
            law_load_after_store(b.memory.xip_sram, at, w, val);
        }
    } else if addr >> 28 == 2 {
        if fits(b.memory.sram, addr - 0x2000_0000, w) {
            law_load_after_store(b.memory.sram, addr - 0x2000_0000, w, val);
        }
    } else {
        lemma_peripheral_writes_leave_memory_alone(b, addr, w, val);
    }
    reveal(BusState::after_write);
    reveal(BusState::after_update);
}

/// A write to a peripheral of the APB touches no memory and puts nothing on
/// the list of halfwords to look at again.
proof fn lemma_apb_writes_leave_memory_alone(b: BusState, addr: u32, val: u32)
    ensures
        b.after_apb_write(addr, val).memory == b.memory,
        b.after_apb_write(addr, val).pending_cache_invalidations == b.pending_cache_invalidations,
        b.after_apb_write(addr, val).pending_invalidation_regions == b.pending_invalidation_regions,
{
    reveal(BusState::after_apb_write);
}

/// Nor does any other write that goes to neither memory region.
pub proof fn lemma_peripheral_writes_leave_memory_alone(b: BusState, addr: u32, w: Width, val: u32)
    requires
        addr >> 28 != 1,
        addr >> 28 != 2,
    ensures
        b.after_update(addr, w, val).memory == b.memory,
        b.after_update(addr, w, val).pending_cache_invalidations == b.pending_cache_invalidations,
        b.after_update(addr, w, val).pending_invalidation_regions == b.pending_invalidation_regions,
{
    let word = addr & 0xFFFF_FFFC;
    lemma_apb_writes_leave_memory_alone(b, addr, val);
    lemma_apb_writes_leave_memory_alone(b, word, merged(b.apb_word(word), addr, w, val));
    lemma_apb_writes_leave_memory_alone(b, word, in_lane(addr, w, val));
    reveal(BusState::after_update);
}

/// Nothing answers in the regions with no device behind them: a read gives
/// zero, and every access is on record as a fault at its address.
pub proof fn law_unmapped_regions_fault(b: BusState, addr: u32, w: Width, val: u32)
    requires
        ({
            let region = addr / 0x1000_0000;
            region == 3 || 6 <= region <= 0xC || region == 0xF
        }),
    ensures
        b.value_at(addr, w) == 0,
        b.after_read(addr, w).fault && b.after_read(addr, w).fault_addr == addr,
        b.after_write(addr, w, val).fault && b.after_write(addr, w, val).fault_addr == addr,
        b.after_write(addr, w, val).memory == b.memory,
{
    lemma_region(addr);
    reveal(BusState::value_at);
    reveal(BusState::after_read);
    reveal(BusState::after_access);
    reveal(BusState::after_write);
    reveal(BusState::after_update);
}

/// A peripheral that is held in reset reads as zero at every width, and
/// neither a read nor a write has any effect.
pub proof fn law_held_peripheral_does_not_answer(b: BusState, addr: u32, w: Width, val: u32)
    requires
        addr / 0x1000_0000 == 4 || addr & 0xFFFF_C000 == DMA_BASE,
        b.held(addr & 0xFFFF_C000),
    ensures
        b.value_at(addr, w) == 0,
        b.after_read(addr, w) == b.traced(TraceEntry { write: false, width: w, addr, value: 0 }),
        b.after_write(addr, w, val) == b.traced(TraceEntry { write: true, width: w, addr, value: val }),
{
    lemma_region(addr);
    lemma_empty_word(w.mask(), (8 * (addr % 4)) as u32);
    lemma_block_is_in_region(addr);
    lemma_region(DMA_BASE);
    let word = addr & 0xFFFF_FFFC;
    lemma_held_apb_write(b, addr, val);
    lemma_held_apb_write(b, word, merged(b.apb_word(word), addr, w, val));
    lemma_held_apb_write(b, word, in_lane(addr, w, val));
    reveal(BusState::value_at);
    reveal(BusState::after_read);
    reveal(BusState::after_access);
    reveal(BusState::after_write);
    reveal(BusState::after_update);
}

proof fn lemma_held_apb_write(b: BusState, addr: u32, val: u32)
    requires
        b.held(addr & 0xFFFF_C000),
    ensures
        b.after_apb_write(addr, val) == b,
{
    reveal(BusState::after_apb_write);
}

/// An address is in the region of its block.
proof fn lemma_block_is_in_region(addr: u32)
    ensures
        (addr & 0xFFFF_C000) >> 28 == addr >> 28,
{
    lemma_address_facts(addr);
}

/// A block of registers with nothing behind them: they keep what is written.
pub open spec fn only_stores(base: u32) -> bool {
    &&& base != SYSINFO_BASE && base != RESETS_BASE && base != PLL_SYS_BASE && base != PLL_USB_BASE
    &&& base != UART0_BASE && base != UART1_BASE && base != SPI0_BASE && base != SPI1_BASE
    &&& base != I2C0_BASE && base != I2C1_BASE && base != ADC_BASE && base != PWM_BASE
    &&& base != TIMER_BASE && base != WATCHDOG_BASE
}

/// A narrow write to such a register replaces the part of the word that it
/// names and keeps the rest; through a modifying port it acts on that part
/// alone. A read of the same width gives the value back, and one of another
/// part sees no change.
pub proof fn law_narrow_write_keeps_the_rest(b: BusState, addr: u32, w: Width, val: u32, other: u32, v: Width)
    requires
        addr / 0x1000_0000 == 4,
        w != Width::Word,
        addr % 4 + w.bytes() <= 4,
        only_stores(addr & 0xFFFF_C000),
        !b.held(addr & 0xFFFF_C000),
        store_index(addr & 0xFFFF_C000, (addr & 0xFFFF_FFFC) & 0xFFF) < b.apb.len(),
    ensures
        ({
            let word = addr & 0xFFFF_FFFC;
            let port = (addr >> 12) & 0x3;
            let after = b.after_write(addr, w, val);
            &&& after.apb_word(word) == (if port == 0 {
                merged(b.apb_word(word), addr, w, val)
            } else {
                aliased(b.apb_word(word), in_lane(addr, w, val), port)
            })
            &&& port == 0 ==> after.value_at(addr, w) == val & w.mask()
            &&& port == 0 && other & 0xFFFF_FFFC == word && (addr + w.bytes() <= other || (other + v.bytes() <= addr))
                && other % 4 + v.bytes() <= 4 ==> after.value_at(other, v) == b.value_at(other, v)
        }),
{
    lemma_region(addr);
    lemma_narrow_parts(b.apb_word(addr & 0xFFFF_FFFC), addr, w.mask(), val, other, v.mask());
    reveal(BusState::after_write);
    reveal(BusState::after_update);
    reveal(BusState::after_apb_write);
    reveal(BusState::value_at);
}

proof fn lemma_narrow_parts(word: u32, addr: u32, mask: u32, val: u32, other: u32, m: u32)
    by (bit_vector)
    ensures
        ({
            let sh = 8 * (addr % 4);
            let ot = 8 * (other % 4);
            let n = (word & !(mask << (sh as u32))) | ((val & mask) << (sh as u32));
            let bits: u32 = if mask == 0xFF { 8 } else { 16 };
            let obits: u32 = if m == 0xFF { 8 } else { 16 };
            &&& (mask == 0xFF || mask == 0xFFFF) && sh + bits <= 32 ==> (n >> (sh as u32)) & mask == val & mask
            &&& (mask == 0xFF || mask == 0xFFFF) && (m == 0xFF || m == 0xFFFF) && sh + bits <= 32 && ot + obits <= 32
                && (sh + bits <= ot || ot + obits <= sh) ==> (n >> (ot as u32)) & m == (word >> (ot as u32)) & m
        }),
        ((addr & 0xFFFF_FFFC) & 0xFFF) % 4 == 0,
        (addr & 0xFFFF_FFFC) >> 28 == addr >> 28,
        ((addr & 0xFFFF_FFFC) >> 12) & 0x3 == (addr >> 12) & 0x3,
        addr >> 28 == 4 ==> addr & 0xFFFF_C000 >= 0x4000_0000,
        other & 0xFFFF_FFFC == other - other % 4,
        addr & 0xFFFF_FFFC == addr - addr % 4,
        other & 0xFFFF_FFFC == addr & 0xFFFF_FFFC ==> other >> 28 == addr >> 28,
{
}

/// Once a line is released its peripheral is no longer held, and holding it
/// again takes effect at once: the reset register is what decides.
pub proof fn law_reset_register_decides(b: BusState, val: u32)
    ensures
        b.after_write(RESETS_BASE, Width::Word, val).resets == val & RESET_MASK,
        b.after_write((RESETS_BASE + 0x2000) as u32, Width::Word, val).resets == (b.resets | val) & RESET_MASK,
        b.after_write((RESETS_BASE + 0x3000) as u32, Width::Word, val).resets == (b.resets & !val) & RESET_MASK,
{
    lemma_region(RESETS_BASE);
    lemma_region((RESETS_BASE + 0x2000) as u32);
    lemma_region((RESETS_BASE + 0x3000) as u32);
    lemma_reset_addresses(b.resets);
    reveal(BusState::after_write);
    reveal(BusState::after_update);
    reveal(BusState::after_apb_write);
}

proof fn lemma_reset_addresses(x: u32)
    by (bit_vector)
    ensures
        0x4000_C000u32 & 0xFFFF_C000 == 0x4000_C000,
        0x4000_E000u32 & 0xFFFF_C000 == 0x4000_C000,
        0x4000_F000u32 & 0xFFFF_C000 == 0x4000_C000,
        0x4000_C000u32 & 0xFFF == 0,
        0x4000_E000u32 & 0xFFF == 0,
        0x4000_F000u32 & 0xFFF == 0,
        (0x4000_C000u32 >> 12) & 0x3 == 0,
        (0x4000_E000u32 >> 12) & 0x3 == 2,
        (0x4000_F000u32 >> 12) & 0x3 == 3,
        x & 0 == 0,
        (x & !0xFFFF_FFFFu32) & 0x01FF_FFFF == 0,
        0x4002_8000u32 & 0xFFFF_C000 == 0x4002_8000,
        0x4002_C000u32 & 0xFFFF_C000 == 0x4002_C000,
        0x4002_8000u32 & 0xFFFF_FFFC == 0x4002_8000,
        0x4002_C000u32 & 0xFFFF_FFFC == 0x4002_C000,
        0x4002_8000u32 & 0xFFF == 0,
        0x4002_C000u32 & 0xFFF == 0,
        (x >> 0) & 0xFFFF_FFFF == x,
{
}

/// Writing ones to the bitclear port of the reset register leaves nothing in
/// reset.
pub proof fn law_everything_can_be_released(b: BusState, base: u32)
    ensures
        !b.after_write((RESETS_BASE + 0x3000) as u32, Width::Word, 0xFFFF_FFFF).held(base),
{
    law_reset_register_decides(b, 0xFFFF_FFFF);
    lemma_reset_addresses(b.resets);
    lemma_empty_word(reset_line(base), 0);
}

/// A write to a place in the block of a loop where there is no register
/// changes nothing, neither the loop nor the clocks that follow from it.
pub proof fn law_loops_ignore_unknown_registers(b: BusState, base: u32, offset: u32, val: u32)
    requires
        base == PLL_SYS_BASE || base == PLL_USB_BASE,
        0x10 <= offset < 0x1000,
    ensures
        b.after_write((base + offset) as u32, Width::Word, val) == b.traced(
            TraceEntry { write: true, width: Width::Word, addr: (base + offset) as u32, value: val },
        ),
{
    lemma_region(base);
    lemma_register_address((base + offset) as u32, base, offset);
    reveal(BusState::after_write);
    reveal(BusState::after_update);
    reveal(BusState::after_apb_write);
}

/// The lock bits that firmware polls follow the clock.
pub proof fn law_polling_sees_the_lock(b: BusState)
    requires
        b.pll_sys.cs & PLL_CS_LOCK == 0,
        b.pll_usb.cs & PLL_CS_LOCK == 0,
    ensures
        b.value_at(PLL_SYS_BASE, Width::Word) & PLL_CS_LOCK != 0 <==> locked(
            b.pll_sys_lock_at_cycle,
            b.master_cycle,
        ),
        b.value_at(PLL_USB_BASE, Width::Word) & PLL_CS_LOCK != 0 <==> locked(
            b.pll_usb_lock_at_cycle,
            b.master_cycle,
        ),
{
    lemma_region(PLL_SYS_BASE);
    lemma_region(PLL_USB_BASE);
    lemma_reset_addresses(b.resets);
    lemma_reset_addresses(b.pll_sys.word_at(b.pll_sys_lock_at_cycle, 0, b.master_cycle));
    lemma_reset_addresses(b.pll_usb.word_at(b.pll_usb_lock_at_cycle, 0, b.master_cycle));
    crate::clocks::law_lock_bit_is_live(b.pll_sys, b.pll_sys_lock_at_cycle, b.master_cycle);
    crate::clocks::law_lock_bit_is_live(b.pll_usb, b.pll_usb_lock_at_cycle, b.master_cycle);
    reveal(BusState::value_at);
}

} // verus!
