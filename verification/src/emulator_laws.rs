//! How the chip starts, sleeps, wakes and keeps time.
use vstd::prelude::*;

use crate::bits::{bit, lemma_bit_ops};
use crate::bus::lane_laws::lemma_parts;
use crate::bus::map_laws::law_memory_places;
use crate::bus::model::BusState;
use crate::bus::sio::LaunchRequest;
use crate::cpu::CortexM0Plus;
use crate::emulator::{longer, refreshed, woken, Config, EmulatorState};
use crate::memory::Width;

verus! {

/// A launch starts the second core at its entry point, on its stack, with its
/// vector table, out of any wait, privileged and unmasked, and is then done;
/// the first core is not touched.
pub proof fn law_launch(e: EmulatorState, l: LaunchRequest, i: int)
    requires
        e.bus.sio.pending_launch == Some(l),
        0 <= i < 13,
    ensures
        ({
            let after = e.launch_taken();
            let c = after.core1;
            &&& c.regs.r[15] == l.entry - l.entry % 2
            &&& c.regs.r[13] == l.sp && c.regs.msp == l.sp
            &&& c.regs.psp == 0 && c.regs.control == 0 && c.regs.primask == 0
            &&& c.regs.xpsr == 0x0100_0000
            &&& c.regs.r[i] == e.core1.regs.r[i]
            &&& !c.halted
            &&& after.bus.ppb[1].vtor == l.vtor
            &&& after.bus.ppb[0] == e.bus.ppb[0]
            &&& !after.bus.wfe_waiting[1]
            &&& after.bus.wfe_waiting[0] == e.bus.wfe_waiting[0]
            &&& after.bus.sio.pending_launch is None
            &&& !after.bus.sio.handshake_armed
            &&& after.core0 == e.core0
            &&& after.clock == e.clock
        }),
{
    lemma_parts(l.entry);
}

/// With no launch asked for, none happens.
pub proof fn law_no_launch(e: EmulatorState)
    requires
        e.bus.sio.pending_launch is None,
    ensures
        e.launch_taken() == e,
{
}

/// Booting from flash points both cores at the stack and the entry point that
/// the table at `offset` names in its first two words, and at that table; the
/// second core stays halted and waits for a launch.
pub proof fn law_boot(e: EmulatorState, offset: u32)
    requires
        offset + 8 <= e.bus.memory.flash.len() <= 0x100_0000,
    ensures
        ({
            let after = e.booted(offset);
            let sp = e.bus.value_at((0x1000_0000 + offset) as u32, Width::Word);
            let entry = e.bus.value_at((0x1000_0004 + offset) as u32, Width::Word);
            &&& after.core0.regs.r[13] == sp && after.core0.regs.msp == sp
            &&& after.core1.regs.r[13] == sp && after.core1.regs.msp == sp
            &&& after.core0.regs.r[15] == entry - entry % 2
            &&& after.core1.regs.r[15] == entry - entry % 2
            &&& after.bus.ppb[0].vtor == 0x1000_0000 + offset
            &&& after.bus.ppb[1].vtor == 0x1000_0000 + offset
            &&& after.core1.halted
            &&& after.core0.halted == e.core0.halted
            &&& after.bus.sio.handshake_armed
            &&& after.bus.memory == e.bus.memory
            &&& after.clock == e.clock
        }),
{
    reveal(crate::bits::wadd);
    law_memory_places(e.bus, offset, Width::Word);
    law_memory_places(e.bus, (offset + 4) as u32, Width::Word);
    let entry = e.bus.value_at((0x1000_0004 + offset) as u32, Width::Word);
    lemma_parts(entry);
    assert((0x1000_0000 + (offset + 4) as u32) as u32 == (0x1000_0004 + offset) as u32);
}

/// An event that a core waits for ends its wait and is used up; an interrupt
/// ends the wait and leaves the event alone; a core that does not wait keeps
/// its event; the other core sees nothing.
pub proof fn law_waits_end(b: BusState, n: int, m: int)
    requires
        0 <= n < 2,
        0 <= m < 2,
        m != n,
    ensures
        ({
            let after = b.unparked(n);
            let waits = b.wfe_waiting[n];
            let event = b.event_flag[n];
            let interrupt = exists|i: int|
                0 <= i < 32 && bit(b.nvics[n].pending, i) && #[trigger] bit(b.nvics[n].enabled, i);
            &&& after.wfe_waiting[n] == (waits && !event && !interrupt)
            &&& after.event_flag[n] == (event && !waits)
            &&& after.wfe_waiting[m] == b.wfe_waiting[m]
            &&& after.event_flag[m] == b.event_flag[m]
        }),
{
    lemma_interrupted(b, n);
}

/// An interrupt waits for a core when a line is both pending and enabled.
proof fn lemma_interrupted(b: BusState, n: int)
    ensures
        b.interrupted(n) == exists|i: int|
            0 <= i < 32 && bit(b.nvics[n].pending, i) && #[trigger] bit(b.nvics[n].enabled, i),
{
    let p = b.nvics[n].pending;
    let q = b.nvics[n].enabled;
    if p & q != 0 {
        lemma_some_bit(p & q);
        let i = choose|i: int| 0 <= i < 32 && bit(p & q, i);
        lemma_bit_ops(p, q, i as u32, 0);
        assert(bit(q, i));
    } else {
        assert forall|i: int| 0 <= i < 32 && bit(p, i) implies !#[trigger] bit(q, i) by {
            lemma_bit_ops(p, q, i as u32, 0);
            lemma_bit_ops(0, 0, i as u32, 0);
        }
    }
}

/// A word that is not zero has a bit.
pub proof fn lemma_some_bit(x: u32)
    requires
        x != 0,
    ensures
        exists|i: int| 0 <= i < 32 && bit(x, i),
{
    if forall|i: int| 0 <= i < 32 ==> !bit(x, i) {
        lemma_no_bit(x);
        assert(!bit(x, 0) && !bit(x, 1) && !bit(x, 2) && !bit(x, 3) && !bit(x, 4) && !bit(x, 5) && !bit(x, 6) && !bit(
            x,
            7,
        ));
        assert(!bit(x, 8) && !bit(x, 9) && !bit(x, 10) && !bit(x, 11) && !bit(x, 12) && !bit(x, 13) && !bit(x, 14)
            && !bit(x, 15));
        assert(!bit(x, 16) && !bit(x, 17) && !bit(x, 18) && !bit(x, 19) && !bit(x, 20) && !bit(x, 21) && !bit(x, 22)
            && !bit(x, 23));
        assert(!bit(x, 24) && !bit(x, 25) && !bit(x, 26) && !bit(x, 27) && !bit(x, 28) && !bit(x, 29) && !bit(x, 30)
            && !bit(x, 31));
    }
}

proof fn lemma_no_bit(x: u32)
    by (bit_vector)
    ensures
        x != 0 ==> (x >> 0) & 1 == 1 || (x >> 1) & 1 == 1 || (x >> 2) & 1 == 1 || (x >> 3) & 1 == 1 || (x >> 4) & 1
            == 1 || (x >> 5) & 1 == 1 || (x >> 6) & 1 == 1 || (x >> 7) & 1 == 1 || (x >> 8) & 1 == 1 || (x >> 9) & 1
            == 1 || (x >> 10) & 1 == 1 || (x >> 11) & 1 == 1 || (x >> 12) & 1 == 1 || (x >> 13) & 1 == 1 || (x >> 14)
            & 1 == 1 || (x >> 15) & 1 == 1 || (x >> 16) & 1 == 1 || (x >> 17) & 1 == 1 || (x >> 18) & 1 == 1 || (x
            >> 19) & 1 == 1 || (x >> 20) & 1 == 1 || (x >> 21) & 1 == 1 || (x >> 22) & 1 == 1 || (x >> 23) & 1 == 1
            || (x >> 24) & 1 == 1 || (x >> 25) & 1 == 1 || (x >> 26) & 1 == 1 || (x >> 27) & 1 == 1 || (x >> 28) & 1
            == 1 || (x >> 29) & 1 == 1 || (x >> 30) & 1 == 1 || (x >> 31) & 1 == 1,
{
}

/// A halted core wakes when a line is both pending and enabled for it, and for
/// nothing else.
pub proof fn law_halts_end(e: EmulatorState, b: BusState, n: int)
    ensures
        ({
            let interrupt = exists|i: int|
                0 <= i < 32 && bit(b.nvics[n].pending, i) && #[trigger] bit(b.nvics[n].enabled, i);
            &&& woken(e.core0, b, n).halted == (e.core0.halted && !interrupt)
            &&& woken(e.core0, b, n).regs == e.core0.regs
        }),
{
    lemma_interrupted(b, n);
}

/// While both cores are stopped and nothing is raised or waits, the clock
/// skips to the next alarm, but no further than a quantum; otherwise it does
/// not skip.
pub proof fn law_sleep_ends_with_the_next_alarm(e: EmulatorState, budget: nat)
    ensures
        ({
            let stopped = (e.core0.halted || e.bus.wfe_waiting[0]) && (e.core1.halted || e.bus.wfe_waiting[1])
                && e.bus.irq_pending == 0 && !e.bus.interrupted(0) && !e.bus.interrupted(1);
            let gap = e.skip(budget);
            &&& gap <= budget
            &&& !stopped ==> gap == 0
            &&& e.bus.timer.next_fire() is None ==> gap == 0
            &&& e.bus.timer.next_fire() matches Some(at) ==> (stopped && at > e.bus.master_cycle ==> {
                &&& e.bus.master_cycle + gap <= at
                &&& gap == budget || e.bus.master_cycle + gap == at
            })
        }),
{
}

/// The longer of two counts is the one that both fit into.
pub proof fn law_longer(a: u32, b: u32)
    ensures
        longer(a, b) >= a,
        longer(a, b) >= b,
        longer(a, b) == a || longer(a, b) == b,
{
}

proof fn lemma_system_timers_keep(b: BusState, n: int, count: nat)
    requires
        0 <= n < 2,
    ensures
        b.after_systick_ticks(n, count).master_cycle == b.master_cycle,
        b.after_systick_ticks(n, count).sio == b.sio,
        b.after_systick_ticks(n, count).memory == b.memory,
    decreases count,
{
    if count > 0 {
        lemma_system_timers_keep(b, n, (count - 1) as nat);
        reveal(BusState::after_systick_tick);
    }
}

/// A pair of instructions: the first core runs unless it waits, then the
/// second on the bus as the first left it, unless it waits. The pair takes as
/// long as the longer of the two, and the bus's clock moves by that.
pub proof fn law_pair(e: EmulatorState)
    ensures
        ({
            let (after, n) = e.pair_stepped();
            let a = if e.bus.wfe_waiting[0] {
                e.core0.took(e.bus, 0)
            } else {
                e.core0.stepped(e.bus)
            };
            let b = if a.bus.wfe_waiting[1] {
                e.core1.took(a.bus, 0)
            } else {
                e.core1.stepped(a.bus)
            };
            &&& n >= a.cycles && n >= b.cycles && (n == a.cycles || n == b.cycles)
            &&& after.bus.master_cycle as int == (b.bus.master_cycle + n) % 0x1_0000_0000_0000_0000
            &&& after.bus.memory == b.bus.memory
            &&& after.core0.regs == a.cpu.regs
            &&& b.bus.sio.pending_launch is None ==> after.core1.regs == b.cpu.regs && after.bus.sio == b.bus.sio
            &&& after.clock == e.clock
        }),
{
    reveal(EmulatorState::pair_stepped);
    let a = e.first_ran();
    let b = e.second_ran();
    lemma_system_timers_keep(b.bus, 0, a.cycles as nat);
    let once = b.bus.after_systick_ticks(0, a.cycles as nat);
    lemma_system_timers_keep(once, 1, b.cycles as nat);
    let bus = once.after_systick_ticks(1, b.cycles as nat);
    lemma_catching_up_keeps_registers(a.cpu, bus);
    lemma_catching_up_keeps_registers(b.cpu, bus);
}

proof fn lemma_catching_up_keeps_registers(cpu: CortexM0Plus, bus: BusState)
    ensures
        refreshed(cpu, bus).regs == cpu.regs,
        refreshed(cpu, bus).halted == cpu.halted,
        refreshed(cpu, bus).pending_fault == cpu.pending_fault,
{
    lemma_listing_keeps_registers(cpu, bus.pending_cache_invalidations, bus.pending_cache_invalidations.len());
    let listed = cpu.without_listed(bus.pending_cache_invalidations, bus.pending_cache_invalidations.len());
    lemma_sweeping_keeps_registers(listed, 1024, bus.pending_invalidation_regions);
}

proof fn lemma_listing_keeps_registers(cpu: CortexM0Plus, addrs: Seq<u32>, n: nat)
    ensures
        cpu.without_listed(addrs, n).regs == cpu.regs,
        cpu.without_listed(addrs, n).halted == cpu.halted,
        cpu.without_listed(addrs, n).pending_fault == cpu.pending_fault,
    decreases n,
{
    if n > 0 {
        lemma_listing_keeps_registers(cpu, addrs, (n - 1) as nat);
    }
}

proof fn lemma_sweeping_keeps_registers(cpu: CortexM0Plus, n: nat, regions: u32)
    ensures
        cpu.without_regions_upto(n, regions).regs == cpu.regs,
        cpu.without_regions_upto(n, regions).halted == cpu.halted,
        cpu.without_regions_upto(n, regions).pending_fault == cpu.pending_fault,
    decreases n,
{
    if n > 0 {
        lemma_sweeping_keeps_registers(cpu, (n - 1) as nat, regions);
    }
}

/// After everything else has moved on, the master clock and the bus agree, no
/// line is left raised, no core lags behind what was written, and the record
/// of the first state machine's furthest place has not shrunk.
pub proof fn law_service(e: EmulatorState, cycles: u64)
    ensures
        ({
            let after = e.serviced(cycles);
            &&& after.clock as int == (e.clock + cycles) % 0x1_0000_0000_0000_0000
            &&& after.bus.irq_pending == 0
            &&& after.bus.pending_cache_invalidations.len() == 0
            &&& after.bus.pending_invalidation_regions == 0
            &&& after.max_pc >= e.max_pc
            &&& after.max_pc >= after.bus.pio[0].sms[0].pc
            &&& after.max_pc == e.max_pc || after.max_pc == after.bus.pio[0].sms[0].pc
            &&& after.quantum == e.quantum
            &&& after.config == e.config
        }),
{
    reveal(EmulatorState::serviced);
    reveal(BusState::time_passed);
    reveal(BusState::irqs_latched);
    reveal(BusState::pins_merged);
}

/// A chip out of reset: the clock at zero, a quantum of sixty-four, every
/// clock at the ring oscillator's frequency, every reset line held, the first
/// core ready to run and the second halted.
pub proof fn law_power_up(config: Config, i: int)
    requires
        0 <= i < 32,
    ensures
        ({
            let e = EmulatorState::at_reset(config);
            &&& e.clock == 0
            &&& e.quantum == 64
            &&& e.bus.clock_tree.sys_clk_hz == config.rosc_hz
            &&& e.bus.clock_tree.ref_clk_hz == config.rosc_hz
            &&& e.bus.clock_tree.peri_clk_hz == config.rosc_hz
            &&& bit(e.bus.resets, i) == (i < 25)
            &&& !e.core0.halted && e.core0.core_id == 0
            &&& e.core1.halted && e.core1.core_id == 1
            &&& e.core0.regs.xpsr == 0x0100_0000
            &&& e.bus.uart0.state.irq == 20 && e.bus.uart1.state.irq == 21
            &&& e.bus.spi0.irq == 18 && e.bus.spi1.irq == 19
            &&& e.bus.i2c0.irq == 23 && e.bus.i2c1.irq == 24
            &&& e.bus.adc.irq == 22 && e.bus.pwm.irq == 4
            &&& e.bus.apb.len() == 32768
        }),
{
    crate::peripherals::laws::lemma_mask_bits(i as u32);
}

/// What the blocks of the chip hold out of reset, where it is not zero.
pub proof fn law_power_up_settings(config: Config, k: int, n: int, s: int, at: int)
    requires
        0 <= k < 2,
        0 <= n < 4,
        0 <= s < 8,
    ensures
        ({
            let b = EmulatorState::at_reset(config).bus;
            let m = b.pio[k].sms[n];
            &&& m.clkdiv == 0x1_0000 && m.execctrl == 0x1_F000 && m.shiftctrl == 0xC_0000 && m.pinctrl == 0x1400_0000
            &&& m.osr_count == 32 && m.isr_count == 0 && m.pc == 0 && !m.enabled && m.forced is None && m.delay == 0
            &&& b.i2c0.word_at(0x00) == 0x65 && b.i2c0.word_at(0x04) == 0x55 && b.i2c0.word_at(0x08) == 0x55
            &&& b.i2c0.word_at(0x14) == 0x28 && b.i2c0.word_at(0x18) == 0x2F && b.i2c0.word_at(0x1C) == 0x06
            &&& b.i2c0.word_at(0x20) == 0x0D && b.i2c0.word_at(0x30) == 0x8FF && b.i2c0.word_at(0x7C) == 1
            &&& b.i2c0.word_at(0xA0) == 7 && b.i2c0.word_at(0x6C) == 0 && b.i2c0.word_at(0x34) == 0
            &&& b.pwm.slices[s].div == 0x10 && b.pwm.slices[s].top == 0xFFFF && b.pwm.slices[s].csr == 0
            &&& b.pwm.slices[s].ctr == 0 && b.pwm.slices[s].cc == 0
            &&& b.timer.dbgpause == 7 && !b.timer.pause && b.timer.armed == 0 && b.timer.inte == 0
            &&& b.watchdog_tick.cycles == 12 && !b.watchdog_tick.enable && !b.watchdog_tick.running
            &&& b.pll_sys.cs == 1 && b.pll_sys.pwr == 0x2D && b.pll_sys.fbdiv == 0 && b.pll_sys.prim == 0x7_7000
            &&& b.pll_usb == b.pll_sys && b.pll_sys_lock_at_cycle is None && b.pll_usb_lock_at_cycle is None
            &&& b.sio.handshake_armed && b.sio.handshake_step == 0 && b.sio.spinlocks == 0
            &&& b.sio.gpio_out == 0 && b.sio.gpio_oe == 0
            &&& b.memory.rom.len() == 0x4000 && b.memory.sram.len() == 0x4_2000
            &&& b.memory.flash.len() == 0x20_0000 && b.memory.xip_sram.len() == 0x4000
            &&& 0 <= at < 0x4_2000 ==> b.memory.sram[at] == 0
            &&& b.ppb[k].vtor == 0 && b.ppb[k].icsr == 0 && b.nvics[k].enabled == 0 && b.nvics[k].pending == 0
            &&& b.systicks[k].csr == 0 && b.systicks[k].rvr == 0
            &&& !b.wfe_waiting[k] && !b.event_flag[k]
        }),
{
}

/// Every byte of an image that is laid into flash or boot memory reads back
/// there, as far as it fits.
pub proof fn law_images_read_back(b: BusState, at: u32, data: Seq<u8>, i: int)
    requires
        0 <= i < data.len(),
        at + i < 0x100_0000,
    ensures
        at + i < b.memory.rom.len() ==> b.imaged(at, data).value_at((at + i) as u32, Width::Byte) == data[i],
        at + i < b.memory.flash.len() ==> b.imaged((0x1000_0000 + at) as u32, data).value_at(
            (0x1000_0000 + at + i) as u32,
            Width::Byte,
        ) == data[i],
        b.imaged(at, data).memory.sram == b.memory.sram,
        b.imaged(at, data).memory.flash == b.memory.flash,
        b.imaged((0x1000_0000 + at) as u32, data).memory.rom == b.memory.rom,
        b.imaged((0x1000_0000 + at) as u32, data).memory.sram == b.memory.sram,
{
    law_memory_places(b.imaged(at, data), (at + i) as u32, Width::Byte);
    let f = b.imaged((0x1000_0000 + at) as u32, data);
    law_memory_places(f, (at + i) as u32, Width::Byte);
}

/// A pin that the host drives is the only one that it drives.
pub proof fn law_other_pins_keep(e: EmulatorState, pin: u8, value: bool, i: int)
    requires
        0 <= i < 32,
        i != pin,
    ensures
        bit(e.pin_driven(pin, value).bus.sio.gpio_out, i) == bit(e.bus.sio.gpio_out, i),
        bit(e.pin_driven(pin, value).bus.sio.gpio_oe, i) == bit(e.bus.sio.gpio_oe, i),
        pin >= 30 ==> e.pin_driven(pin, value) == e,
{
    if pin < 30 {
        lemma_bit_ops(e.bus.sio.gpio_out, 0, i as u32, pin as u32);
        lemma_bit_ops(e.bus.sio.gpio_oe, 0, i as u32, pin as u32);
        reveal(BusState::pins_merged);
    }
}

} // verus!
