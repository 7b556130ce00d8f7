use rp2040_emu::{Config, Emulator, EmulatorBuilder, ROM_SIZE};
use rp2040_emu::peripherals::timer::{ALARM0_OFFSET, INTE_OFFSET};

#[test]
fn step_serial_irq_pending_breaks_both_blocked_chain() {
    let mut emu = Emulator::new(Config::default());
    emu.cores[0].halt();
    emu.halt_core1();
    emu.bus.irq_pending = 0x1;
    let _ = emu.step().unwrap();
    assert!(emu.bus.nvics[0].is_pending(0) || emu.bus.nvics[1].is_pending(0));
}

#[test]
fn step_serial_nvic0_pending_breaks_both_blocked_chain() {
    let mut emu = Emulator::new(Config::default());
    emu.cores[0].halt();
    emu.halt_core1();
    emu.bus.nvics[0].set_enabled(0);
    emu.bus.nvics[0].set_pending(0);
    let _ = emu.step().unwrap();
    assert!(!emu.cores[0].is_halted());
}

#[test]
fn step_serial_nvic1_pending_breaks_both_blocked_chain() {
    let mut emu = Emulator::new(Config::default());
    emu.cores[0].halt();
    emu.halt_core1();
    emu.bus.nvics[1].set_enabled(0);
    emu.bus.nvics[1].set_pending(0);
    let _ = emu.step().unwrap();
    assert!(!emu.cores[1].is_halted());
}

#[test]
fn step_serial_past_alarm_breaks_both_blocked_chain() {
    let mut emu = EmulatorBuilder::new(Config::default())
        .step_quantum(64)
        .build()
        .expect("Serial build is infallible");
    emu.cores[0].halt();
    emu.halt_core1();
    let sys_hz = emu.bus.clock_tree.sys_clk_hz;
    emu.bus
        .timer
        .write32(INTE_OFFSET, 0x1, 0, emu.bus.master_cycle, sys_hz);
    emu.bus
        .timer
        .write32(ALARM0_OFFSET, 50, 0, emu.bus.master_cycle, sys_hz);
    emu.bus.master_cycle = 100;
    emu.clock.cycles = 100;
    let _ = emu.step().unwrap();
}

#[test]
fn step_serial_fast_path_falls_through_when_dma_busy() {
    let mut emu = Emulator::new(Config::default());
    emu.bus.dma.write32(0x008, 4, 0);
    emu.bus.dma.write32(0x00C, 0x1, 0);
    assert!(!emu.bus.dma.is_idle(), "DMA should be busy after ctrl_trig");
    emu.cores[0].halt();
    emu.halt_core1();
    let _ = emu.step().unwrap();
}

#[test]
fn gpio_read_pin_eq_30_is_boundary_invalid() {
    let emu = Emulator::new(Config::default());
    assert!(!emu.gpio_read(30));
}

#[test]
fn gpio_write_pin_eq_30_is_boundary_noop() {
    let mut emu = Emulator::new(Config::default());
    let oe_before = emu.bus.sio.gpio_oe;
    let out_before = emu.bus.sio.gpio_out;
    emu.gpio_write(30, true);
    assert_eq!(emu.bus.sio.gpio_oe, oe_before);
    assert_eq!(emu.bus.sio.gpio_out, out_before);
}

#[test]
fn load_image_rom_at_last_byte_writes_one_byte() {
    let mut emu = Emulator::new(Config::default());
    let offset = (ROM_SIZE - 1) as u32;
    let data = [0x42u8];
    emu.load_image(offset, &data);
    assert_eq!(emu.bus.memory.rom_read8(offset), 0x42);
}

#[test]
fn direct_boot_from_flash_sets_sp_pc_vtor_and_halts_core1() {
    let mut emu = Emulator::new(Config::default());
    let mut flash_data = vec![0u8; 0x200];
    flash_data[0x100..0x104].copy_from_slice(&0x2003_FFFFu32.to_le_bytes());
    flash_data[0x104..0x108].copy_from_slice(&0x1000_0101u32.to_le_bytes());
    emu.load_flash(&flash_data);
    emu.direct_boot_from_flash(0x100);
    for c in 0..2 {
        assert_eq!(emu.cores[c].regs.msp, 0x2003_FFFF);
        assert_eq!(emu.cores[c].regs.pc(), 0x1000_0100);
        assert_eq!(emu.bus.ppb[c].vtor, 0x1000_0100);
    }
    assert!(emu.cores[1].is_halted());
}

#[test]
fn mmio_write32_stashes_master_cycle() {
    let mut emu = Emulator::new(Config::default());
    let _ = emu.run(128).unwrap();
    let cycles_before = emu.cycles();
    emu.mmio_write32(0xD000_0018, 0x0);
    assert_eq!(emu.bus.master_cycle, cycles_before);
}

#[test]
fn mmio_read32_stashes_master_cycle() {
    let mut emu = Emulator::new(Config::default());
    let _ = emu.run(128).unwrap();
    let cycles_before = emu.cycles();
    let _ = emu.mmio_read32(0xD000_0008);
    assert_eq!(emu.bus.master_cycle, cycles_before);
}

#[test]
fn drain_uart0_tx_log_empty_when_idle() {
    let mut emu = Emulator::new(Config::default());
    let bytes = emu.drain_uart0_tx_log();
    assert!(bytes.is_empty());
}

#[test]
fn core_accessor_returns_valid_reference() {
    let emu = Emulator::new(Config::default());
    let c0 = emu.core_at(0);
    assert_eq!(c0.cycles(), 0);
    let c1 = emu.core_at(1);
    assert!(c1.is_halted());
}

#[test]
fn core_mut_accessor_allows_mutation() {
    let mut emu = Emulator::new(Config::default());
    assert!(!emu.core_at(0).is_halted());
    emu.core_mut(0).halt();
    assert!(emu.core_at(0).is_halted());
}

#[test]
fn peek_poke_sram_round_trip() {
    let mut emu = Emulator::new(Config::default());
    let addr = 0x2000_0040;
    emu.poke(addr, 0xCAFE_BABE);
    assert_eq!(emu.peek(addr), 0xCAFE_BABE);
}
