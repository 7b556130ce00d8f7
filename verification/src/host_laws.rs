//! What a host can rely on.
use vstd::prelude::*;

use crate::bits::bit;
use crate::bus::laws::{in_sram, law_sram_read, lemma_region};
use crate::bus::model::BusState;
use crate::emulator::{EmulatorState, GPIO_COUNT};
use crate::memory::{law_load_after_store, Width};

verus! {

/// A look at memory from outside shows what a read by a core would give.
pub proof fn law_peek_shows_what_a_read_gives(b: BusState, addr: u32)
    requires
        addr < 0x1400_0000 || 0x1500_0000 <= addr < 0x1600_0000 || 0x2000_0000 <= addr < 0x3000_0000,
    ensures
        b.peeked(addr) == b.value_at(addr, Width::Word),
{
    lemma_region(addr);
    reveal(BusState::value_at);
}

/// A word set from outside in SRAM is there for a look and for a read.
pub proof fn law_poke_then_peek(b: BusState, addr: u32, val: u32)
    requires
        in_sram(b, addr, Width::Word),
    ensures
        b.poked(addr, val).peeked(addr) == val,
        b.poked(addr, val).value_at(addr, Width::Word) == val,
{
    lemma_region(addr);
    law_load_after_store(b.memory.sram, addr - 0x2000_0000, Width::Word, val);
    law_peek_shows_what_a_read_gives(b.poked(addr, val), addr);
}

/// Every byte of an image laid into SRAM reads back, as far as it fits.
pub proof fn law_image_reads_back(b: BusState, addr: u32, data: Seq<u8>, i: int)
    requires
        0x2000_0000 <= addr,
        0 <= i < data.len(),
        addr + i < 0x3000_0000,
        in_sram(b, (addr + i) as u32, Width::Byte),
    ensures
        b.imaged(addr, data).value_at((addr + i) as u32, Width::Byte) == data[i],
{
    law_sram_read(b.imaged(addr, data), (addr + i) as u32, Width::Byte);
}

/// A pin that the host drives, and nothing else does, reads back as driven.
pub proof fn law_driven_pin_reads_back(e: EmulatorState, pin: u8, value: bool)
    requires
        pin < GPIO_COUNT,
        !bit(e.bus.external_gpio_in_mask, pin as int),
        !bit(e.bus.pio[0].pad_oe, pin as int),
        !bit(e.bus.pio[1].pad_oe, pin as int),
    ensures
        bit(e.pin_driven(pin, value).bus.gpio_in, pin as int) == value,
        bit(e.pin_driven(pin, value).bus.sio.gpio_oe, pin as int),
{
    let b = e.bus;
    reveal(BusState::pins_merged);
    lemma_pin(
        b.sio.gpio_out,
        b.sio.gpio_oe,
        b.pio[0].pad_out,
        b.pio[0].pad_oe,
        b.pio[1].pad_out,
        b.pio[1].pad_oe,
        b.external_gpio_in_mask,
        b.external_gpio_in_override,
        pin as u32,
    );
}

proof fn lemma_pin(out: u32, oe: u32, o0: u32, e0: u32, o1: u32, e1: u32, mask: u32, over: u32, pin: u32)
    by (bit_vector)
    requires
        pin < 30,
        (mask >> pin) & 1 != 1,
        (e0 >> pin) & 1 != 1,
        (e1 >> pin) & 1 != 1,
    ensures
        ((oe | (1u32 << pin)) >> pin) & 1 == 1,
        (((((((out | (1u32 << pin)) & (oe | (1u32 << pin))) | (o0 & e0) | (o1 & e1)) & 0x3FFF_FFFF) & !mask) | (over & mask)) >> pin) & 1 == 1,
        (((((((out & !(1u32 << pin)) & (oe | (1u32 << pin))) | (o0 & e0) | (o1 & e1)) & 0x3FFF_FFFF) & !mask) | (over & mask)) >> pin) & 1 != 1,
{
}

/// A restart keeps the memories, the quantum and what is on record of the
/// workers, and forgets everything else: the clock, what was pending, and what was driven from outside.
pub proof fn law_restart_forgets(e: EmulatorState)
    ensures
        e.restarted().bus.memory == e.bus.memory,
        e.restarted().quantum == e.quantum,
        e.restarted().crew == e.crew,
        e.restarted().clock == 0,
        e.restarted().bus.irq_pending == 0,
        e.restarted().bus.external_gpio_in_mask == 0,
        e.restarted().bus.external_gpio_in_override == 0,
        e.restarted().restarted() == e.restarted(),
{
}

/// Running for a number of cycles runs at least that many, unless a step
/// passes none, and running for none does nothing.
pub proof fn law_run_reaches_its_goal(e: EmulatorState, spent: nat, goal: nat)
    ensures
        spent >= goal ==> e.ran_for(spent, goal) == (e, spent),
        e.ran_for(spent, goal).1 >= goal || exists|last: EmulatorState|
            #[trigger] last.stepped() == (e.ran_for(spent, goal).0, 0nat),
    decreases
            if spent < goal {
                goal - spent
            } else {
                0
            },
{
    if spent < goal {
        let (next, cycles) = e.stepped();
        if cycles == 0 {
            assert(e.stepped() == (e.ran_for(spent, goal).0, 0nat));
        } else {
            law_run_reaches_its_goal(next, spent + cycles, goal);
        }
    }
}

} // verus!
