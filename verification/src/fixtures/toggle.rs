//! The pin that goes up and down: what the toggling set-up does, and that the
//! length of a quantum does not matter to it.
use vstd::array::spec_array_update;
use vstd::prelude::*;

use crate::bits::lemma_empty_word;
use crate::bus::laws::{law_sram_write, lemma_region, lemma_register_address};
use crate::bus::model::{pio_offset, BusState};
use crate::bus::PIO0_BASE;
use crate::coherence::caches_coherent;
use crate::cpu::coherence::lemma_code_is_read_from_memory;
use crate::emulator::{Config, EmulatorState};
use crate::fixtures::laws::law_nops_are_in_place;
use crate::fixtures::runs::{calm, law_steps_over_nops, nop_address, on_nops, silent};
use crate::fixtures::{nop_seeded, nops_written, toggling};
use crate::memory::{Width, SRAM_SIZE};
use crate::pio::sm::{field, low_mask, with_pins, Shared, Sm};
use crate::pio::{
    drives_only, law_a_block_that_only_drives_is_unseeing, lemma_sample_rides_along, looks_at_nothing,
    unseeing, Pio,
};
use crate::quantum::{law_one_long_quantum_is_many_short_ones, law_steps_add_up_for_pio, steps};

verus! {

/// The toggling program's machine: an instruction that drives the pin high,
/// one that drives it low, and back.
pub open spec fn toggling_machine() -> Sm {
    Sm { execctrl: 0x1000, pinctrl: 0x0400_0000, enabled: true, ..Sm::at_reset() }
}

/// The block that it runs in.
pub open spec fn toggling_block() -> Pio {
    Pio {
        sms: spec_array_update(Pio::at_reset().sms, 0, toggling_machine()),
        instr_mem: spec_array_update(spec_array_update(Pio::at_reset().instr_mem, 0, 0xE001), 1, 0xE000),
        pad_oe: 1,
        ..Pio::at_reset()
    }
}

/// A word written to a register of the first PIO block.
proof fn lemma_pio_write(b: BusState, offset: u32, val: u32)
    requires
        offset < 0x1000,
        !b.mmio_trace_enabled,
    ensures
        b.after_write((PIO0_BASE + offset) as u32, Width::Word, val) == (BusState {
            pio: spec_array_update(b.pio, 0, b.pio[0].after_write(pio_offset(offset), val, 0)),
            ..b
        }),
{
    lemma_region(PIO0_BASE);
    lemma_register_address((PIO0_BASE + offset) as u32, PIO0_BASE, offset);
    reveal(BusState::after_write);
    reveal(BusState::after_update);
}

/// The fields of the words that the set-up uses.
proof fn lemma_words(out: u32)
    by (bit_vector)
    ensures
        0xE001u32 & 0xFFFF == 0xE001,
        0xE000u32 & 0xFFFF == 0xE000,
        0xE081u32 & 0xFFFF == 0xE081,
        0x1000u32 & 0x7FFF_FF9F == 0x1000,
        field(0xE001, 13, 3) == 7,
        field(0xE000, 13, 3) == 7,
        field(0xE081, 13, 3) == 7,
        field(0, 13, 3) == 0,
        field(0, 5, 3) == 0,
        field(0xE001, 5, 3) == 0,
        field(0xE000, 5, 3) == 0,
        field(0xE081, 5, 3) == 4,
        0xE001u32 & 0x1F == 1,
        0xE000u32 & 0x1F == 0,
        0xE081u32 & 0x1F == 1,
        field(0xE001, 8, 5) == 0,
        field(0xE000, 8, 5) == 0,
        field(0xE081, 8, 5) == 0,
        field(0x0400_0000, 29, 3) == 0,
        field(0x0400_0000, 26, 3) == 1,
        field(0x0400_0000, 5, 5) == 0,
        field(0x1000, 12, 5) == 1,
        field(0x1000, 7, 5) == 0,
        0u32 & low_mask(5) == 0,
        with_pins(0, 0, 1, 1) == 1,
        with_pins(out, 0, 1, 1) & 1 == 1,
        with_pins(out, 0, 1, 0) & 1 == 0,
        0x0001_0000u32 >> 16 == 1,
        (0x0001_0000u32 >> 8) & 0x00FF_FFFF == 256,
        (1u32 >> 0) & 1 == 1,
        (1u32 >> 1) & 1 == 0,
        (1u32 >> 2) & 1 == 0,
        (1u32 >> 3) & 1 == 0,
        (1u32 >> 4) & 1 == 0,
        (1u32 >> 5) & 1 == 0,
        (1u32 >> 6) & 1 == 0,
        (1u32 >> 7) & 1 == 0,
        (1u32 >> 8) & 1 == 0,
        (1u32 >> 9) & 1 == 0,
        (1u32 >> 10) & 1 == 0,
        (1u32 >> 11) & 1 == 0,
{
}

/// The registers written, one after the other, make the toggling block.
proof fn lemma_block_is_set_up(p: Pio)
    requires
        p == Pio::at_reset(),
    ensures
        p.after_write(0x048, 0xE001, 0).after_write(0x04C, 0xE000, 0).after_write(
            0x0DC,
            0x0400_0000,
            0,
        ).after_write(0x0CC, 0x1000, 0).after_write(0x0D8, 0xE081, 0).after_write(0, 0x1, 0)
            == toggling_block(),
{
    lemma_words(0);
    let p1 = p.after_write(0x048, 0xE001, 0);
    let p2 = p1.after_write(0x04C, 0xE000, 0);
    let p3 = p2.after_write(0x0DC, 0x0400_0000, 0);
    let p4 = p3.after_write(0x0CC, 0x1000, 0);
    let sm = Sm { execctrl: 0x1000, pinctrl: 0x0400_0000, ..Sm::at_reset() };
    assert(p4.sms[0] == sm);
    let p5 = p4.after_write(0x0D8, 0xE081, 0);
    assert(sm.executed(p4.shared(), 0xE081, p4.input, 0) == sm.done(Shared { irq: 0, out: 0, oe: 1 })) by {
        reveal(Sm::executed);
    }
    assert(p5.sms[0] == sm && p5.pad_oe == 1 && p5.pad_out == 0);
    let p6 = p5.after_write(0, 0x1, 0);
    assert(p6 == p5.controlled_upto(4, 1, 1));
    assert(p6.sms =~= toggling_block().sms) by {
        reveal_with_fuel(Pio::controlled_upto, 5);
    }
    assert(p6.instr_mem =~= toggling_block().instr_mem) by {
        reveal_with_fuel(Pio::controlled_upto, 5);
    }
    reveal_with_fuel(Pio::controlled_upto, 5);
}

/// The set-up changes the first PIO block and nothing else of the bus.
proof fn lemma_bus_is_set_up(b: BusState)
    requires
        b.pio[0] == Pio::at_reset(),
        !b.mmio_trace_enabled,
    ensures
        toggling(b) == (BusState { pio: spec_array_update(b.pio, 0, toggling_block()), ..b }),
{
    let b1 = b.after_write((PIO0_BASE + 0x048) as u32, Width::Word, 0xE001);
    lemma_pio_write(b, 0x048, 0xE001);
    let b2 = b1.after_write((PIO0_BASE + 0x04C) as u32, Width::Word, 0xE000);
    lemma_pio_write(b1, 0x04C, 0xE000);
    let b3 = b2.after_write((PIO0_BASE + 0x0DC) as u32, Width::Word, 0x0400_0000);
    lemma_pio_write(b2, 0x0DC, 0x0400_0000);
    let b4 = b3.after_write((PIO0_BASE + 0x0CC) as u32, Width::Word, 0x1000);
    lemma_pio_write(b3, 0x0CC, 0x1000);
    let b5 = b4.after_write((PIO0_BASE + 0x0D8) as u32, Width::Word, 0xE081);
    lemma_pio_write(b4, 0x0D8, 0xE081);
    let b6 = b5.after_write(PIO0_BASE, Width::Word, 0x1);
    lemma_pio_write(b5, 0, 0x1);
    lemma_block_is_set_up(b.pio[0]);
    assert(b6.pio =~= spec_array_update(b.pio, 0, toggling_block()));
}

/// The toggling block in the middle of its program.
pub open spec fn in_program(p: Pio, pc: u32) -> bool {
    let sm = p.sms[0];
    &&& p.instr_mem == toggling_block().instr_mem
    &&& sm == (Sm { pc, ..toggling_machine() })
    &&& !p.sms[1].enabled
    &&& !p.sms[2].enabled
    &&& !p.sms[3].enabled
    &&& p.pad_oe == 1
}

/// One clock of it: the pin follows the instruction, and the other one is
/// next.
proof fn lemma_one_clock(p: Pio, pc: u32, input: u32)
    requires
        pc < 2,
        in_program(p, pc),
    ensures
        in_program(p.ticked(input), (1 - pc) as u32),
        p.ticked(input).pad_out & 1 == 1 - pc,
{
    lemma_words(p.pad_out);
    let sm = Sm { clock: 0, ..p.sms[0] };
    let op = p.fetch(0);
    reveal(Sm::clocked);
    reveal(Sm::executed);
    let q = p.sm_ticked(0, input);
    assert(q.sms[0] == (Sm { pc: (1 - pc) as u32, ..toggling_machine() }));
    assert(q.sm_ticked(1, input) == q && q.sm_ticked(2, input) == q && q.sm_ticked(3, input) == q);
}

/// On each clock the pin that the toggling program drives changes: high after
/// the first, low after the second, and so on.
pub proof fn law_the_pin_alternates(n: nat, input: u32)
    ensures
        in_program(toggling_block().ran(n, input), (n % 2) as u32),
        n > 0 ==> toggling_block().ran(n, input).pad_out & 1 == n % 2,
    decreases n,
{
    if n > 0 {
        law_the_pin_alternates((n - 1) as nat, input);
        lemma_one_clock(toggling_block().ran((n - 1) as nat, input), ((n - 1) as nat % 2) as u32, input);
    }
}

/// The toggling block pays no attention to its pins.
proof fn lemma_block_only_drives()
    ensures
        drives_only(toggling_block()),
{
    lemma_words(0);
    let p = toggling_block();
    assert forall|i: int| 0 <= i < 32 implies looks_at_nothing(#[trigger] p.instr_mem[i]) by {
        if i > 1 {
            assert(p.instr_mem[i] == 0);
        }
    }
}

/// A fresh chip has nothing to do.
proof fn lemma_fresh_chip_is_calm(config: Config)
    ensures
        calm(EmulatorState::at_reset(config).bus),
        caches_coherent(EmulatorState::at_reset(config)),
{
    let b = EmulatorState::at_reset(config).bus;
    lemma_empty_word(0x101, 0);
    lemma_empty_word(0x1, 0);
    lemma_empty_word(0x2, 0);
    lemma_empty_word(0, 0);
    lemma_empty_word(b.i2c0.intr_mask, 0);
    lemma_empty_word(crate::peripherals::adc::FCS_EN, 0);
    lemma_empty_word(crate::peripherals::pwm::CSR_EN, 0);
    lemma_empty_word(crate::cpu::systick::CSR_ENABLE, 0);
    crate::coherence::law_fresh_caches_are_coherent(config);
}

/// What writing the program does to the bus besides memory.
proof fn lemma_nops_written(b: BusState, n: nat)
    requires
        n <= 256,
        b.memory.sram.len() == SRAM_SIZE,
        !b.mmio_trace_enabled,
    ensures
        nops_written(b, n).memory.sram.len() == SRAM_SIZE,
        nops_written(b, n) == (BusState {
            memory: nops_written(b, n).memory,
            pending_cache_invalidations: nops_written(b, n).pending_cache_invalidations,
            last_access_cycles: nops_written(b, n).last_access_cycles,
            ..b
        }),
    decreases n,
{
    if n > 0 {
        lemma_nops_written(b, (n - 1) as nat);
        let before = nops_written(b, (n - 1) as nat);
        let addr = (0x2000_1000 + 2 * (n - 1)) as u32;
        law_sram_write(before, addr, Width::Half, 0xBF00);
        crate::bus::laws::law_read_only_memories(before, addr, Width::Half, 0xBF00);
    }
}

/// A fresh chip, with the program seeded and any PIO blocks that can raise no
/// interrupt, is about to run the first instruction.
pub proof fn law_a_seeded_chip_is_about_to_run(e: EmulatorState, config: Config)
    requires
        e.core0 == EmulatorState::at_reset(config).core0,
        e.core1 == EmulatorState::at_reset(config).core1,
        e.bus == (BusState { pio: e.bus.pio, ..EmulatorState::at_reset(config).bus }),
        silent(e.bus.pio[0]),
        silent(e.bus.pio[1]),
    ensures
        on_nops(nop_seeded(e), 0),
        nop_seeded(e).bus.pio == e.bus.pio,
{
    lemma_fresh_chip_is_calm(config);
    lemma_nops_written(e.bus, 256);
    let f = nop_seeded(e);
    assert forall|k: nat| k < 256 implies crate::cpu::coherence::half_at(
        f.bus.memory,
        #[trigger] nop_address(k),
    ) == 0xBF00 by {
        law_nops_are_in_place(e.bus, 256, k);
        lemma_code_is_read_from_memory(f.bus, nop_address(k));
    }
    assert(caches_coherent(f));
}

/// A chip straight from power-up, of any quantum, is about to run the first
/// instruction once the program is seeded.
pub proof fn law_a_fresh_chip_can_be_seeded(config: Config, quantum: u32)
    ensures
        on_nops(nop_seeded(EmulatorState { quantum, ..EmulatorState::at_reset(config) }), 0),
        nop_seeded(EmulatorState { quantum, ..EmulatorState::at_reset(config) }).quantum == quantum,
{
    law_a_seeded_chip_is_about_to_run(EmulatorState { quantum, ..EmulatorState::at_reset(config) }, config);
}

/// The chip that [`toggle_emulator`](crate::fixtures::toggle_emulator) makes.
pub open spec fn toggling_chip(quantum: u32) -> EmulatorState {
    let fresh = EmulatorState {
        quantum,
        ..EmulatorState::at_reset(Config { rosc_hz: crate::clocks::ROSC_HZ })
    };
    nop_seeded(EmulatorState { bus: toggling(fresh.bus), ..fresh })
}

/// The toggling chip is about to run the first instruction of the program
/// that does nothing, beside a block that pays no attention to its pins.
pub proof fn law_the_toggling_chip_is_about_to_run(quantum: u32)
    ensures
        on_nops(toggling_chip(quantum), 0),
        toggling_chip(quantum).quantum == quantum,
        toggling_chip(quantum).bus.pio[0] == toggling_block(),
        unseeing(toggling_block()),
{
    let config = Config { rosc_hz: crate::clocks::ROSC_HZ };
    let fresh = EmulatorState { quantum, ..EmulatorState::at_reset(config) };
    lemma_bus_is_set_up(fresh.bus);
    law_a_seeded_chip_is_about_to_run(EmulatorState { bus: toggling(fresh.bus), ..fresh }, config);
    lemma_block_only_drives();
    law_a_block_that_only_drives_is_unseeing(toggling_block());
}

/// Beside the program that does nothing, `n` steps of a quantum of one and
/// one step of a quantum of `n` both take `n` cycles, execute `n`
/// instructions, and leave the toggling block in the same state, with the pin
/// high after an odd number of clocks and low after an even one.
pub proof fn law_quantum_does_not_matter_to_the_pin(n: u32, pins: u32)
    requires
        0 < n <= 256,
    ensures
        ({
            let short = steps(toggling_chip(1), n as nat);
            let long = steps(toggling_chip(n), 1);
            &&& short.1 == n
            &&& long.1 == n
            &&& short.0.core0.regs.r[15] == nop_address(n as nat)
            &&& long.0.core0.regs.r[15] == nop_address(n as nat)
            &&& (Pio { input: pins, ..short.0.bus.pio[0] }) == (Pio { input: pins, ..long.0.bus.pio[0] })
            &&& short.0.bus.pio[0].pad_out & 1 == n % 2
            &&& long.0.bus.pio[0].pad_out & 1 == n % 2
        }),
{
    law_the_toggling_chip_is_about_to_run(1);
    law_the_toggling_chip_is_about_to_run(n);
    law_steps_over_nops(toggling_chip(1), 0, n as nat);
    law_steps_over_nops(toggling_chip(n), 0, 1);
    law_one_long_quantum_is_many_short_ones(toggling_chip(1), n as nat, toggling_chip(n), 1, 0, pins);
    law_steps_add_up_for_pio(toggling_chip(1), n as nat, 0, pins);
    lemma_sample_rides_along(toggling_block(), pins, n as nat, pins);
    law_the_pin_alternates(n as nat, pins);
}

} // verus!
