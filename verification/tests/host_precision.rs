use rp2040_emu::{Config, Emulator, EmulatorBuilder, ROM_SIZE};
use rp2040_emu::bus::{PIO0_BASE, PIO1_BASE};
use rp2040_emu::peripherals::timer::{ALARM0_OFFSET, INTE_OFFSET};

#[test]
fn load_image_rom_at_exact_rom_size_offset_is_skipped() {
    let mut emu = Emulator::new(Config::default());
    let offset = ROM_SIZE as u32;
    let payload = [0xABu8; 4];
    emu.load_image(offset, &payload);
    assert_eq!(emu.bus.memory.rom_read8((ROM_SIZE - 1) as u32), 0);
}

#[test]
fn step_serial_break_on_mixed_block_when_no_alarm_armed() {
    let mut emu = Emulator::new(Config::default());
    emu.bus.wfe_waiting[0] = true;
    emu.halt_core1();
    let _ = emu.step().unwrap();
}

#[test]
fn step_serial_alarm_advance_via_wfe_block_on_core0() {
    let mut emu = EmulatorBuilder::new(Config::default())
        .step_quantum(64)
        .build()
        .expect("Serial build");
    emu.bus.wfe_waiting[0] = true;
    emu.halt_core1();
    let sys_hz = emu.bus.clock_tree.sys_clk_hz;
    emu.bus
        .timer
        .write32(INTE_OFFSET, 0x1, 0, emu.bus.master_cycle, sys_hz);
    emu.bus
        .timer
        .write32(ALARM0_OFFSET, 30, 0, emu.bus.master_cycle, sys_hz);
    let _ = emu.step().unwrap();
}

#[test]
fn step_serial_alarm_advance_via_wfe_block_on_core1() {
    let mut emu = EmulatorBuilder::new(Config::default())
        .step_quantum(64)
        .build()
        .expect("Serial build");
    emu.wake_core1();
    emu.bus.wfe_waiting[1] = true;
    emu.cores[0].halt();
    let sys_hz = emu.bus.clock_tree.sys_clk_hz;
    emu.bus
        .timer
        .write32(INTE_OFFSET, 0x1, 0, emu.bus.master_cycle, sys_hz);
    emu.bus
        .timer
        .write32(ALARM0_OFFSET, 30, 0, emu.bus.master_cycle, sys_hz);
    let _ = emu.step().unwrap();
}

#[test]
fn step_serial_fast_path_falls_through_when_pio_active() {
    let mut emu = Emulator::new(Config::default());
    emu.bus.write32(PIO0_BASE, 0x1);
    emu.cores[0].halt();
    emu.halt_core1();
    assert!(!emu.bus.pio_all_idle());
    let _ = emu.step().unwrap();
}

#[test]
fn step_serial_fast_path_falls_through_when_irq_pending() {
    let mut emu = Emulator::new(Config::default());
    emu.cores[0].halt();
    emu.halt_core1();
    emu.bus.irq_pending = 0x1;
    let _ = emu.step().unwrap();
}

#[test]
fn tick_systick_pendstset_latches_on_core1() {
    let mut emu = Emulator::new(Config::default());
    emu.wake_core1();
    emu.bus.systicks[0].csr = 0b011;
    emu.bus.systicks[1].csr = 0b011;
    emu.bus.systicks[0].cvr = 0;
    emu.bus.systicks[1].cvr = 0;
    emu.bus.systicks[0].rvr = 0;
    emu.bus.systicks[1].rvr = 0;
    let _ = emu.step().unwrap();
    assert_ne!(
        emu.bus.ppb[1].icsr & (1 << 26),
        0,
        "core 1 SysTick PENDSTSET should latch after first tick"
    );
}

#[test]
fn tick_pio_int0_intf_routes_to_irq_pending() {
    let mut emu = Emulator::new(Config::default());
    emu.bus.systicks[0].csr |= 1;
    emu.bus.write32(PIO0_BASE + 0x130, 0x1);
    emu.bus.write32(PIO0_BASE + 0x13C, 0x1);
    emu.bus.write32(PIO1_BASE + 0x130, 0x1);
    emu.bus.write32(PIO1_BASE + 0x13C, 0x1);
    let _ = emu.step().unwrap();
    let routed = emu.bus.irq_pending != 0
        || emu.bus.nvics[0].is_pending(7)
        || emu.bus.nvics[0].is_pending(8)
        || emu.bus.nvics[0].is_pending(9)
        || emu.bus.nvics[0].is_pending(10);
    assert!(routed, "PIO INT0/INT1 INTF should route to NVIC IRQ pending");
}

#[test]
fn tick_pio_sm0_max_pc_advances_when_program_runs() {
    let mut emu = Emulator::new(Config::default());
    emu.cores[0].halt();
    emu.halt_core1();
    emu.bus.write32(PIO0_BASE + 0x048, 0xA042);
    emu.bus.write32(PIO0_BASE + 0x04C, 0xA042);
    emu.bus.write32(PIO0_BASE + 0x000, 0x1);
    emu.bus.systicks[0].csr |= 1;
    let max_pc_before = emu.pio0_sm0_max_pc;
    for _ in 0..4 {
        let _ = emu.step().unwrap();
    }
    assert!(emu.pio0_sm0_max_pc >= max_pc_before);
}

#[test]
fn tick_pio_with_zero_cycles_returns_early() {
    let mut emu = Emulator::new(Config::default());
    emu.cores[0].halt();
    emu.halt_core1();
    let _ = emu.step().unwrap();
}
