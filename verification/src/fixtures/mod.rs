//! Ready-made set-ups: vector tables, programs and peripherals in the states
//! that experiments start from.
use vstd::array::spec_array_update;
use vstd::prelude::*;

use crate::bus::model::BusState;
use crate::bus::ppb::Ppb;
use crate::bus::sio::Sio;
use crate::bus::{Bus, PIO0_BASE, PLL_SYS_BASE, PLL_USB_BASE, RESETS_BASE};
use crate::clocks::{ClockTree, ROSC_HZ};
use crate::cpu::registers::Registers;
use crate::cpu::CortexM0Plus;
use crate::emulator::{Config, Emulator, EmulatorState};
use crate::fixtures::toggle::toggling_chip;
use crate::memory::Width;

pub mod dma;
pub mod dma_basic;
pub mod dma_ring;
pub mod hot_loop;
pub mod laws;
pub mod runs;
pub mod table;
pub mod toggle;
pub mod uart;

verus! {

/// A core and a bus, both fresh.
pub fn cpu_with_bus() -> (out: (CortexM0Plus, Bus))
    ensures
        out.0 == CortexM0Plus::at_reset(0),
        out.1@ == BusState::at_reset(),
{
    (CortexM0Plus::new(), Bus::new())
}

/// Where the vector tables below put the handler of exception `i`.
pub open spec fn handler_address(i: int) -> u32 {
    (0x2000_1000 + 32 * i) as u32
}

/// The first `n` vectors of a table at the start of SRAM, each with its Thumb
/// bit.
pub open spec fn vectors_written(bus: BusState, n: nat) -> BusState
    decreases n,
{
    if n == 0 {
        bus
    } else {
        vectors_written(bus, (n - 1) as nat).after_write(
            (0x2000_0000 + 4 * (n - 1)) as u32,
            Width::Word,
            handler_address(n - 1) | 1,
        )
    }
}

/// The bus with such a table, selected for core 0.
pub open spec fn with_vectors(n: nat) -> BusState {
    let b = vectors_written(BusState::at_reset(), n);
    BusState { ppb: spec_array_update(b.ppb, 0, Ppb { vtor: 0x2000_0000, ..b.ppb[0] }), ..b }
}

/// A bus with a vector table for the sixteen system exceptions at the start
/// of SRAM, selected for core 0, and the handlers' addresses.
pub fn make_test_bus_with_vector_table() -> (out: (Bus, [u32; 16]))
    ensures
        out.0@ == with_vectors(16),
        forall|i: int| 0 <= i < 16 ==> #[trigger] out.1[i] == handler_address(i),
{
    let mut bus = Bus::new();
    let vtor: u32 = 0x2000_0000;
    let mut handlers: [u32; 16] = [0;16];
    let mut i: usize = 0;
    while i < 16
        invariant
            i <= 16,
            vtor == 0x2000_0000,
            bus@ == vectors_written(BusState::at_reset(), i as nat),
            forall|k: int| 0 <= k < i ==> #[trigger] handlers[k] == handler_address(k),
        decreases 16 - i,
    {
        let handler: u32 = 0x2000_1000 + i as u32 * 32;
        bus.write32(vtor + i as u32 * 4, handler | 1);
        handlers[i] = handler;
        i += 1;
    }
    bus.ppb[0].vtor = vtor;
    (bus, handlers)
}

/// The same with forty-eight vectors, which takes in every external
/// interrupt.
pub fn make_bus_with_vectors() -> (out: (Bus, [u32; 48]))
    ensures
        out.0@ == with_vectors(48),
        forall|i: int| 0 <= i < 48 ==> #[trigger] out.1[i] == handler_address(i),
{
    let mut bus = Bus::new();
    let vtor: u32 = 0x2000_0000;
    let mut handlers: [u32; 48] = [0;48];
    let mut i: usize = 0;
    while i < 48
        invariant
            i <= 48,
            vtor == 0x2000_0000,
            bus@ == vectors_written(BusState::at_reset(), i as nat),
            forall|k: int| 0 <= k < i ==> #[trigger] handlers[k] == handler_address(k),
        decreases 48 - i,
    {
        let handler: u32 = 0x2000_1000 + i as u32 * 32;
        bus.write32(vtor + i as u32 * 4, handler | 1);
        handlers[i] = handler;
        i += 1;
    }
    bus.ppb[0].vtor = vtor;
    (bus, handlers)
}

/// A core with a stack and a program counter in SRAM.
pub fn fresh_cpu() -> (cpu: CortexM0Plus)
    ensures
        cpu == CortexM0Plus::at_reset(0).with_regs(
            (Registers { msp: 0x2000_8000, ..Registers::at_reset() }).with_reg(13, 0x2000_8000).with_reg(
                15,
                0x2000_4000,
            ),
        ),
{
    let mut cpu = CortexM0Plus::new();
    cpu.regs.msp = 0x2000_8000;
    cpu.regs.set_sp(0x2000_8000);
    cpu.regs.set_pc(0x2000_4000);
    cpu
}

/// Plants a branch to itself.
pub fn plant_self_loop(bus: &mut Bus, addr: u32)
    ensures
        final(bus)@ == old(bus)@.after_write(addr, Width::Half, 0xE7FE),
{
    bus.write16(addr, 0xE7FE);
}

/// Vectors 1 to `n - 1` of a table at `base`, all pointing at one handler.
pub open spec fn shared_vectors_written(bus: BusState, base: u32, handler: u32, n: nat) -> BusState
    decreases n,
{
    if n <= 1 {
        bus
    } else {
        shared_vectors_written(bus, base, handler, (n - 1) as nat).after_write(
            (base + 4 * (n - 1)) as u32,
            Width::Word,
            handler | 1,
        )
    }
}

/// A stack pointer, forty-seven vectors, then a handler and a main program
/// that each do nothing and spin.
pub open spec fn table_planted(bus: BusState, base: u32) -> BusState {
    let handler = (base + 0x80) as u32;
    let entry = (base + 0x100) as u32;
    shared_vectors_written(
        bus.after_write(base, Width::Word, 0x2002_0000),
        base,
        handler,
        48,
    ).after_write(handler, Width::Half, 0xBF00).after_write((handler + 2) as u32, Width::Half, 0xE7FE).after_write(
        entry,
        Width::Half,
        0xBF00,
    ).after_write((entry + 2) as u32, Width::Half, 0xE7FE)
}

/// Plants such a table and returns where the handler and the main program
/// are.
pub fn plant_vector_table(bus: &mut Bus, base: u32) -> (out: (u32, u32))
    requires
        base <= 0xFFFF_FEFD,
    ensures
        final(bus)@ == table_planted(old(bus)@, base),
        out == ((base + 0x80) as u32, (base + 0x100) as u32),
{
    let handler_addr: u32 = base + 0x80;
    let main_addr: u32 = base + 0x100;
    let ghost before = bus@.after_write(base, Width::Word, 0x2002_0000);
    bus.write32(base, 0x2002_0000);
    let mut i: u32 = 1;
    while i < 48
        invariant
            1 <= i <= 48,
            base <= 0xFFFF_FEFD,
            handler_addr == base + 0x80,
            bus@ == shared_vectors_written(before, base, handler_addr, i as nat),
        decreases 48 - i,
    {
        bus.write32(base + i * 4, handler_addr | 1);
        i += 1;
    }
    bus.write16(handler_addr, 0xBF00);
    bus.write16(handler_addr + 2, 0xE7FE);
    bus.write16(main_addr, 0xBF00);
    bus.write16(main_addr + 2, 0xE7FE);
    (handler_addr, main_addr)
}

/// `n` do-nothing instructions from 0x2000_1000 on.
pub open spec fn nops_written(bus: BusState, n: nat) -> BusState
    decreases n,
{
    if n == 0 {
        bus
    } else {
        nops_written(bus, (n - 1) as nat).after_write(
            (0x2000_1000 + 2 * (n - 1)) as u32,
            Width::Half,
            0xBF00,
        )
    }
}

/// Core 0 at the start of 256 of them, with a stack.
pub open spec fn nop_seeded(e: EmulatorState) -> EmulatorState {
    EmulatorState {
        bus: nops_written(e.bus, 256),
        core0: e.core0.with_regs(
            (Registers { msp: 0x2002_0000, ..e.core0.regs.with_reg(15, 0x2000_1000) }).with_reg(
                13,
                0x2002_0000,
            ),
        ),
        ..e
    }
}

/// Seeds a run of do-nothing instructions and parks core 0 on it.
pub fn seed_nop_program(emu: &mut Emulator)
    ensures
        final(emu)@ == nop_seeded(old(emu)@),
{
    let prog: u32 = 0x2000_1000;
    let ghost before = emu@;
    let mut i: u32 = 0;
    while i < 256
        invariant
            i <= 256,
            prog == 0x2000_1000,
            emu@ == (EmulatorState { bus: nops_written(before.bus, i as nat), ..before }),
        decreases 256 - i,
    {
        emu.bus.write16(prog + i * 2, 0xBF00);
        i += 1;
    }
    emu.cores[0].regs.set_pc(prog);
    emu.cores[0].regs.msp = 0x2002_0000;
    emu.cores[0].regs.r[13] = emu.cores[0].regs.msp;
}

/// The PIO program that drives a pin high and low in turn, loaded and
/// started.
pub open spec fn toggling(bus: BusState) -> BusState {
    bus.after_write((PIO0_BASE + 0x048) as u32, Width::Word, 0xE001).after_write(
        (PIO0_BASE + 0x04C) as u32,
        Width::Word,
        0xE000,
    ).after_write((PIO0_BASE + 0x0DC) as u32, Width::Word, 0x0400_0000).after_write(
        (PIO0_BASE + 0x0CC) as u32,
        Width::Word,
        0x1000,
    ).after_write((PIO0_BASE + 0x0D8) as u32, Width::Word, 0xE081).after_write(PIO0_BASE, Width::Word, 0x1)
}

/// A chip with that program running beside do-nothing instructions.
pub fn toggle_emulator(step_quantum: u32) -> (emu: Emulator)
    ensures
        emu@ == toggling_chip(
            if step_quantum == 0 {
                1
            } else {
                step_quantum
            },
        ),
{
    let mut emu = Emulator::new(Config { rosc_hz: ROSC_HZ });
    emu.step_quantum = if step_quantum == 0 {
        1
    } else {
        step_quantum
    };
    emu.bus.write32(PIO0_BASE + 0x048, 0xE001);
    emu.bus.write32(PIO0_BASE + 0x04C, 0xE000);
    emu.bus.write32(PIO0_BASE + 0x0DC, 0x0400_0000);
    emu.bus.write32(PIO0_BASE + 0x0CC, 0x1000);
    emu.bus.write32(PIO0_BASE + 0x0D8, 0xE081);
    emu.bus.write32(PIO0_BASE, 0x1);
    seed_nop_program(&mut emu);
    emu
}

/// The address of a register of the system loop.
pub fn pll_sys(offset: u32) -> (addr: u32)
    requires
        offset <= 0xFFFF_FFFF - PLL_SYS_BASE,
    ensures
        addr == PLL_SYS_BASE + offset,
{
    PLL_SYS_BASE + offset
}

/// The address of a register of the USB loop.
pub fn pll_usb(offset: u32) -> (addr: u32)
    requires
        offset <= 0xFFFF_FFFF - PLL_USB_BASE,
    ensures
        addr == PLL_USB_BASE + offset,
{
    PLL_USB_BASE + offset
}

/// Releases every peripheral from reset.
pub fn release_all(bus: &mut Bus)
    ensures
        final(bus)@ == old(bus)@.after_write((RESETS_BASE + 0x3000) as u32, Width::Word, 0xFFFF_FFFF),
{
    bus.write32(RESETS_BASE + 0x3000, 0xFFFF_FFFF);
}

/// A clock tree of 125 MHz with a 12 MHz reference.
pub fn tree() -> (t: ClockTree)
    ensures
        t == (ClockTree { sys_clk_hz: 125_000_000, ref_clk_hz: 12_000_000, peri_clk_hz: 125_000_000 }),
{
    ClockTree { sys_clk_hz: 125_000_000, ref_clk_hz: 12_000_000, peri_clk_hz: 125_000_000 }
}

/// The first five words of the launch handshake.
pub open spec fn handshake_word(i: int) -> u32 {
    if i == 2 {
        1
    } else if i == 3 {
        0x2004_0000
    } else if i == 4 {
        0x2001_0000
    } else {
        0
    }
}

/// `n` of them sent by core 0, each echo taken.
pub open spec fn handshake_primed(sio: Sio, n: nat) -> Sio
    decreases n,
{
    if n == 0 {
        sio
    } else {
        handshake_primed(sio, (n - 1) as nat).after_write(0x054, handshake_word(n - 1), 0).after_read(
            0x058,
            0,
        )
    }
}

/// Brings the launch handshake to step `target`.
pub fn prime_handshake_to_seq(sio: &mut Sio, target: u8)
    requires
        target <= 5,
    ensures
        *final(sio) == handshake_primed(*old(sio), target as nat),
{
    let arm: [u32; 5] = [0, 0, 1, 0x2004_0000, 0x2001_0000];
    let ghost before = *sio;
    let mut i: u8 = 0;
    while i < target
        invariant
            i <= target <= 5,
            forall|k: int| 0 <= k < 5 ==> #[trigger] arm[k] == handshake_word(k),
            *sio == handshake_primed(before, i as nat),
        decreases target - i,
    {
        sio.write32(0x054, arm[i as usize], 0);
        let _ = sio.read32(0x058, 0);
        i += 1;
    }
}

/// `n` instructions in a row, without interrupts.
pub open spec fn advanced_by(cpu: CortexM0Plus, bus: BusState, n: nat) -> (CortexM0Plus, BusState)
    decreases n,
{
    if n == 0 {
        (cpu, bus)
    } else {
        let (c, b) = advanced_by(cpu, bus, (n - 1) as nat);
        let e = c.advanced(b);
        (e.cpu, e.bus)
    }
}

/// A loop of an increment and a branch, about to run.
pub open spec fn hot_loop_start() -> (CortexM0Plus, BusState) {
    let cpu = CortexM0Plus::at_reset(0);
    (
        cpu.with_regs(cpu.regs.with_reg(15, 0x2000_0000)),
        BusState::at_reset().after_write(0x2000_0000, Width::Half, 0x3001).after_write(
            0x2000_0002,
            Width::Half,
            0xE7FD,
        ),
    )
}

/// Runs that loop for a number of instructions.
pub fn run_hot_loop(iterations: u32) -> (out: (CortexM0Plus, Bus))
    ensures
        (out.0, out.1@) == advanced_by(hot_loop_start().0, hot_loop_start().1, iterations as nat),
{
    let mut cpu = CortexM0Plus::new();
    let mut bus = Bus::new();
    bus.write16(0x2000_0000, 0x3001);
    bus.write16(0x2000_0002, 0xE7FD);
    cpu.regs.set_pc(0x2000_0000);
    let mut i: u32 = 0;
    while i < iterations
        invariant
            i <= iterations,
            (cpu, bus@) == advanced_by(hot_loop_start().0, hot_loop_start().1, i as nat),
        decreases iterations - i,
    {
        let _ = cpu.decode_execute(&mut bus);
        i += 1;
    }
    (cpu, bus)
}

/// Core `n`'s SysTick set to fire on every clock.
pub open spec fn systick_armed(bus: BusState, n: usize) -> BusState {
    (BusState { active_core: n, ..bus }).after_write(0xE000_E014, Width::Word, 0).after_write(
        0xE000_E018,
        Width::Word,
        0,
    ).after_write(0xE000_E010, Width::Word, 0b111)
}

pub fn arm_systick(emu: &mut Emulator, n: usize)
    ensures
        final(emu)@ == (EmulatorState { bus: systick_armed(old(emu)@.bus, n), ..old(emu)@ }),
{
    emu.bus.set_active_core(n);
    emu.bus.write32(0xE000_E014, 0);
    emu.bus.write32(0xE000_E018, 0);
    emu.bus.write32(0xE000_E010, 0b111);
}

} // verus!
