use rp2040_emu::{Config, EmulatorBuilder};
use rp2040_emu::bus::{Bus, PIO0_BASE, PIO1_BASE, TIMER_BASE, WATCHDOG_BASE};
use rp2040_emu::bus::peripheral_dispatch::{RESET_WATCHDOG, is_held_in_reset};
use rp2040_emu::irq::{IRQ_PIO0_IRQ_0, IRQ_PIO1_IRQ_0, IRQ_TIMER_IRQ_0};
use rp2040_emu::peripherals::watchdog_tick::TICK_OFFSET;

#[test]
fn irq_pending_field_defaults_zero() {
    let bus = Bus::new();
    assert_eq!(bus.irq_pending(), 0);
}

#[test]
fn drain_pushes_to_both_cores_nvic_pending() {
    let mut emu = EmulatorBuilder::new(Config::default())
        .step_quantum(1)
        .build()
        .expect("Serial build is infallible");
    emu.bus.write16(0x2000_1000, 0xBF00);
    emu.cores[0].regs.set_pc(0x2000_1000);
    emu.cores[0].regs.msp = 0x2002_0000;
    emu.cores[0].regs.r[13] = emu.cores[0].regs.msp;
    emu.bus.irq_pending |= 1u32 << IRQ_TIMER_IRQ_0;
    emu.step().expect("Serial step is infallible");
    assert!(
        emu.bus.nvics[0].is_pending(IRQ_TIMER_IRQ_0 as u8),
        "core 0 NVIC must latch TIMER_IRQ_0 from irq_pending"
    );
    assert!(
        emu.bus.nvics[1].is_pending(IRQ_TIMER_IRQ_0 as u8),
        "core 1 NVIC must also latch it (shared IRQ wire)"
    );
    assert_eq!(
        emu.bus.irq_pending(),
        0,
        "drain must clear the bus-level bitmap"
    );
}

#[test]
fn timer_read_returns_zero_while_held_in_reset() {
    let mut bus = Bus::new();
    assert!(is_held_in_reset(&bus, TIMER_BASE));
    assert_eq!(bus.read32(TIMER_BASE), 0);
    assert_eq!(bus.read32(TIMER_BASE + 0x28), 0);
}

#[test]
fn watchdog_tick_write_swallowed_while_held_in_reset() {
    let mut bus = Bus::new();
    bus.write32(WATCHDOG_BASE + TICK_OFFSET, 0x0000_03FF);
    assert_eq!(
        bus.watchdog_tick.cycles, 12,
        "CYCLES stays at reset default"
    );
    assert!(!bus.watchdog_tick.enable);
}

#[test]
fn watchdog_tick_write_honoured_after_reset_released() {
    let mut bus = Bus::new();
    bus.write32(0x4000_F000, 1u32 << RESET_WATCHDOG);
    bus.write32(WATCHDOG_BASE + TICK_OFFSET, 0x0000_0241);
    assert_eq!(bus.watchdog_tick.cycles, 0x41);
    assert!(bus.watchdog_tick.enable);
    let v = bus.read32(WATCHDOG_BASE + TICK_OFFSET);
    assert_eq!(v & 0x1FF, 0x41);
    assert_eq!(v & (1 << 9), 1 << 9);
    assert_eq!(v & (1 << 10), 1 << 10);
}

#[test]
fn reset_gate_covers_all_four_access_widths() {
    let mut bus = Bus::new();
    assert_eq!(bus.read32(TIMER_BASE + 0x28), 0);
    assert_eq!(bus.read16(TIMER_BASE + 0x28), 0);
    assert_eq!(bus.read8(TIMER_BASE + 0x28), 0);
    bus.write32(TIMER_BASE + 0x28, 0xDEAD_BEEF);
    bus.write16(TIMER_BASE + 0x28, 0xBEEF);
    bus.write8(TIMER_BASE + 0x28, 0xEF);
    assert!(!bus.bus_fault());
}

#[test]
fn fast_path_taken_when_everything_idle() {
    let mut emu = EmulatorBuilder::new(Config::default())
        .step_quantum(1)
        .build()
        .expect("Serial build is infallible");
    emu.bus.write16(0x2000_1000, 0xBF00);
    emu.cores[0].regs.set_pc(0x2000_1000);
    emu.cores[0].regs.msp = 0x2002_0000;
    emu.cores[0].regs.r[13] = emu.cores[0].regs.msp;
    assert!(emu.bus.pio_all_idle());
    assert!(emu.bus.all_peripherals_idle());
    assert!(emu.bus.dma.is_idle());
    assert_eq!(emu.bus.irq_pending(), 0);
    let consumed = emu.step().expect("Serial step is infallible");
    assert_eq!(consumed, 1);
    assert_eq!(emu.bus.irq_pending(), 0);
    assert_eq!(emu.bus.nvics[0].pending, 0);
}

#[test]
fn slow_path_triggered_by_pending_irq() {
    let mut emu = EmulatorBuilder::new(Config::default())
        .step_quantum(1)
        .build()
        .expect("Serial build is infallible");
    emu.bus.write16(0x2000_1000, 0xBF00);
    emu.cores[0].regs.set_pc(0x2000_1000);
    emu.cores[0].regs.msp = 0x2002_0000;
    emu.cores[0].regs.r[13] = emu.cores[0].regs.msp;
    emu.bus.irq_pending |= 1u32 << IRQ_TIMER_IRQ_0;
    let consumed = emu.step().expect("Serial step is infallible");
    assert_eq!(consumed, 1);
    assert_eq!(emu.bus.irq_pending(), 0);
    assert!(emu.bus.nvics[0].is_pending(IRQ_TIMER_IRQ_0 as u8));
}

#[test]
fn pio0_irq_flag_bit0_routes_to_nvic_line_7() {
    let mut emu = EmulatorBuilder::new(Config::default())
        .step_quantum(1)
        .build()
        .expect("Serial build is infallible");
    emu.bus.write16(0x2000_1000, 0xBF00);
    emu.cores[0].regs.set_pc(0x2000_1000);
    emu.cores[0].regs.msp = 0x2002_0000;
    emu.cores[0].regs.r[13] = emu.cores[0].regs.msp;
    emu.bus.write32(PIO0_BASE + 0x12C, 0x001);
    emu.bus.write32(PIO0_BASE + 0x034, 0x01);
    assert!(!emu.bus.pio_all_idle());
    emu.step().expect("Serial step is infallible");
    assert!(
        emu.bus.nvics[0].is_pending(IRQ_PIO0_IRQ_0 as u8),
        "PIO0 IRQ flag bit 0 must route to NVIC line #7 (PIO0_IRQ_0)"
    );
}

#[test]
fn pio1_irq_flag_bit1_routes_to_nvic_line_10() {
    let mut emu = EmulatorBuilder::new(Config::default())
        .step_quantum(1)
        .build()
        .expect("Serial build is infallible");
    emu.bus.write16(0x2000_1000, 0xBF00);
    emu.cores[0].regs.set_pc(0x2000_1000);
    emu.cores[0].regs.msp = 0x2002_0000;
    emu.cores[0].regs.r[13] = emu.cores[0].regs.msp;
    emu.bus.write32(PIO1_BASE + 0x138, 0x002);
    emu.bus.write32(PIO1_BASE + 0x034, 0x02);
    emu.step().expect("Serial step is infallible");
    assert!(
        emu.bus.nvics[0].is_pending((IRQ_PIO1_IRQ_0 + 1) as u8),
        "PIO1 IRQ flag bit 1 must route to NVIC line #10 (PIO1_IRQ_1)"
    );
}

#[test]
fn pio_high_irq_flags_do_not_route_to_nvic() {
    let mut emu = EmulatorBuilder::new(Config::default())
        .step_quantum(1)
        .build()
        .expect("Serial build is infallible");
    emu.bus.write16(0x2000_1000, 0xBF00);
    emu.cores[0].regs.set_pc(0x2000_1000);
    emu.cores[0].regs.msp = 0x2002_0000;
    emu.cores[0].regs.r[13] = emu.cores[0].regs.msp;
    emu.bus.write32(PIO0_BASE + 0x034, 0xF0);
    emu.step().expect("Serial step is infallible");
    assert_eq!(
        emu.bus.nvics[0].pending & 0x780,
        0,
        "high IRQ flags (bits 4-7) must not route to PIO0/PIO1 NVIC lines"
    );
}

#[test]
fn pio0_int0_intf_forces_nvic_line_7_only() {
    let mut emu = EmulatorBuilder::new(Config::default())
        .step_quantum(1)
        .build()
        .expect("Serial build is infallible");
    emu.bus.write16(0x2000_1000, 0xBF00);
    emu.cores[0].regs.set_pc(0x2000_1000);
    emu.cores[0].regs.msp = 0x2002_0000;
    emu.cores[0].regs.r[13] = emu.cores[0].regs.msp;
    emu.bus.write32(PIO0_BASE, 0x1);
    emu.bus.write32(PIO0_BASE + 0x130, 0x001);
    emu.step().expect("Serial step is infallible");
    assert!(
        emu.bus.nvics[0].is_pending(IRQ_PIO0_IRQ_0 as u8),
        "INT0_INTF bit 0 must route to NVIC #7 (PIO0_IRQ_0)"
    );
    assert!(
        !emu.bus.nvics[0].is_pending((IRQ_PIO0_IRQ_0 + 1) as u8),
        "INT0_INTF bit 0 must NOT bleed into NVIC #8 (PIO0_IRQ_1)"
    );
}

#[test]
fn pio0_sm0_catches_external_gpio_iow_low_after_high() {
    let mut emu = EmulatorBuilder::new(Config::default())
        .step_quantum(1)
        .build()
        .expect("Serial build is infallible");
    emu.bus.write16(0x2000_1000, 0xBF00);
    emu.cores[0].regs.set_pc(0x2000_1000);
    emu.cores[0].regs.msp = 0x2002_0000;
    emu.cores[0].regs.r[13] = emu.cores[0].regs.msp;
    let prog: [u16; 4] = [
        0x2084,
        0x2004,
        0xC000,
        0x0000,
    ];
    for (i, insn) in prog.iter().enumerate() {
        emu.bus
            .write32(PIO0_BASE + 0x048 + (i as u32) * 4, *insn as u32);
    }
    emu.bus.write32(PIO0_BASE + 0x0CC, 3u32 << 12);
    emu.bus.write32(PIO0_BASE + 0x0C8, 0x0001_0000);
    emu.bus.write32(PIO0_BASE, 0x1);
    emu.bus.external_gpio_in_mask = 1u32 << 4;
    emu.bus.external_gpio_in_override = 1u32 << 4;
    emu.bus.gpio_in = (emu.bus.gpio_in & !emu.bus.external_gpio_in_mask)
        | (emu.bus.external_gpio_in_override & emu.bus.external_gpio_in_mask);
    for _ in 0..20 {
        emu.step().expect("Serial step is infallible");
    }
    emu.bus.external_gpio_in_override = 0;
    emu.bus.gpio_in &= !(1u32 << 4);
    for _ in 0..20 {
        emu.step().expect("Serial step is infallible");
    }
    let sm0_pc = emu.bus.read32(PIO0_BASE + 0x0D4);
    assert!(
        emu.bus.pio[0].pending_irqs() & 0x01 != 0,
        "PIO IRQ flag 0 not set — PIO never advanced past WAIT 0 \
         (SM0 PC = {})",
        sm0_pc
    );
    assert!(
        sm0_pc <= 1,
        "After IRQ 0 + JMP 0 + wrap, SM0 PC must be 0 or 1 (got {})",
        sm0_pc
    );
}
