use rp2040_emu::{Config, Emulator, EmulatorBuilder, EmulatorError, ExecutionModel, WorkerName};
use rp2040_emu::cpu::CortexM0Plus;
use rp2040_emu::cpu::nvic::Nvic;

#[test]
fn step_threaded_returns_cached_timeout() {
    let mut emu = EmulatorBuilder::new(Config::default())
        .execution(ExecutionModel::Threaded)
        .build()
        .expect("Threaded build");
    emu.timeout_info = Some((WorkerName::Coord, 1_500));
    let r = emu.step();
    assert!(matches!(
        r,
        Err(EmulatorError::BarrierTimeout {
            which: WorkerName::Coord,
            elapsed_ms: 1_500,
        })
    ));
}

#[test]
fn run_threaded_returns_cached_timeout() {
    let mut emu = EmulatorBuilder::new(Config::default())
        .execution(ExecutionModel::Threaded)
        .build()
        .expect("Threaded build");
    emu.timeout_info = Some((WorkerName::Core1, 999));
    let r = emu.run(64);
    assert!(matches!(
        r,
        Err(EmulatorError::BarrierTimeout {
            which: WorkerName::Core1,
            elapsed_ms: 999,
        })
    ));
}

#[test]
fn run_quantum_threaded_returns_cached_timeout() {
    let mut emu = EmulatorBuilder::new(Config::default())
        .execution(ExecutionModel::Threaded)
        .build()
        .expect("Threaded build");
    emu.timeout_info = Some((WorkerName::Core0, 12_345));
    let r = emu.run_quantum();
    assert!(matches!(
        r,
        Err(EmulatorError::BarrierTimeout {
            which: WorkerName::Core0,
            elapsed_ms: 12_345,
        })
    ));
}

#[test]
fn load_bootrom_twice_second_call_has_no_pending_region() {
    let mut emu = Emulator::new(Config::default());
    emu.load_bootrom(&[0u8; 16]);
    emu.bus.pending_invalidation_regions = 0;
    emu.load_bootrom(&[]);
    assert_eq!(emu.bus.pending_invalidation_regions, 0);
}

#[test]
fn load_flash_with_no_pending_region_no_ops() {
    let mut emu = Emulator::new(Config::default());
    emu.bus.pending_invalidation_regions = 0;
    emu.load_flash(&[]);
    assert_eq!(emu.bus.pending_invalidation_regions, 0);
}

#[test]
fn tick_pio_and_route_irqs_sets_pio0_irq0_when_intf_forced() {
    let mut emu = Emulator::new(Config::default());
    emu.bus.systicks[0].csr |= 1;
    emu.bus.pio[0].write32(0x174, 0x0001, 0);
    let _ = emu.step().unwrap();
    let routed = emu.bus.nvics[0].is_pending(7) || emu.bus.nvics[1].is_pending(7);
    assert!(routed, "PIO0 IRQ0 must route via tick_pio_and_route_irqs");
}

#[test]
fn tick_pio_and_route_irqs_sets_pio0_irq1_when_intf_forced() {
    let mut emu = Emulator::new(Config::default());
    emu.bus.systicks[0].csr |= 1;
    emu.bus.pio[0].write32(0x180, 0x0001, 0);
    let _ = emu.step().unwrap();
    let routed = emu.bus.nvics[0].is_pending(8) || emu.bus.nvics[1].is_pending(8);
    assert!(routed, "PIO0 IRQ1 must route via tick_pio_and_route_irqs");
}

#[test]
fn tick_pio_and_route_irqs_sets_pio1_irq0_when_intf_forced() {
    let mut emu = Emulator::new(Config::default());
    emu.bus.systicks[0].csr |= 1;
    emu.bus.pio[1].write32(0x174, 0x0001, 0);
    let _ = emu.step().unwrap();
    let routed = emu.bus.nvics[0].is_pending(9) || emu.bus.nvics[1].is_pending(9);
    assert!(routed, "PIO1 IRQ0 must route via tick_pio_and_route_irqs");
}

#[test]
fn wake_checks_consumes_wfe_event_core1() {
    let mut emu = Emulator::new(Config::default());
    emu.bus.wfe_waiting[1] = true;
    emu.bus.event_flag[1] = true;
    emu.cores[0].halt();
    let _ = emu.step().unwrap();
    assert!(!emu.bus.wfe_waiting[1]);
    assert!(!emu.bus.event_flag[1]);
}

#[test]
fn execute_thumb16_undefined_for_prefix_11101() {
    let mut emu = Emulator::new(Config::default());
    emu.bus.memory.sram_write16(0, 0xE800);
    let mut cpu = CortexM0Plus::with_id(0);
    cpu.regs.set_pc(0x2000_0000);
    cpu.regs.xpsr = 1 << 24;
    cpu.regs.msp = 0x2000_8000;
    cpu.regs.r[13] = 0x2000_8000;
    let _ = cpu.step(&mut emu.bus);
}

#[test]
fn execute_thumb16_undefined_for_prefix_11111() {
    let mut emu = Emulator::new(Config::default());
    emu.bus.memory.sram_write16(0, 0xF800);
    let mut cpu = CortexM0Plus::with_id(0);
    cpu.regs.set_pc(0x2000_0000);
    cpu.regs.xpsr = 1 << 24;
    cpu.regs.msp = 0x2000_8000;
    cpu.regs.r[13] = 0x2000_8000;
    let _ = cpu.step(&mut emu.bus);
}

#[test]
fn highest_priority_pending_tiebreak_on_equal_priority() {
    let mut n = Nvic::new();
    n.set_pending(5);
    n.set_pending(10);
    n.set_enabled(5);
    n.set_enabled(10);
    n.set_priority(5, 0x40);
    n.set_priority(10, 0x40);
    let (irq, prio) = n.highest_priority_pending().expect("at least one");
    assert_eq!(irq, 5, "lower-numbered IRQ wins tie-break");
    assert_eq!(prio, 0x40);
}

#[test]
fn highest_priority_pending_lower_priority_value_wins() {
    let mut n = Nvic::new();
    n.set_pending(2);
    n.set_pending(7);
    n.set_enabled(2);
    n.set_enabled(7);
    n.set_priority(2, 0x80);
    n.set_priority(7, 0x40);
    let (irq, prio) = n.highest_priority_pending().expect("at least one");
    assert_eq!(irq, 7);
    assert_eq!(prio, 0x40);
}

#[test]
fn clear_pending_at_irq_count_boundary_is_noop() {
    let mut n = Nvic::new();
    for i in 0..rp2040_emu::irq::IRQ_COUNT as u8 {
        n.set_pending(i);
    }
    n.clear_pending(rp2040_emu::irq::IRQ_COUNT as u8);
    for i in 0..rp2040_emu::irq::IRQ_COUNT as u8 {
        assert!(n.is_pending(i), "line {i} must remain pending");
    }
}

#[test]
fn clear_enabled_at_irq_count_boundary_is_noop() {
    let mut n = Nvic::new();
    for i in 0..rp2040_emu::irq::IRQ_COUNT as u8 {
        n.set_enabled(i);
    }
    n.clear_enabled(rp2040_emu::irq::IRQ_COUNT as u8);
    for i in 0..rp2040_emu::irq::IRQ_COUNT as u8 {
        assert!(n.is_enabled(i), "line {i} must remain enabled");
    }
}

#[test]
fn try_take_any_pending_dispatches_pendsv() {
    let mut emu = Emulator::new(Config::default());
    let mut rom = vec![0u8; rp2040_emu::ROM_SIZE];
    rom[0..4].copy_from_slice(&0x2000_8000u32.to_le_bytes());
    rom[4..8].copy_from_slice(&0x0000_0101u32.to_le_bytes());
    rom[0x38..0x3C].copy_from_slice(&0x2000_2001u32.to_le_bytes());
    emu.bus.memory.load_rom(&rom);
    emu.bus.memory.sram_write16(0x2000, 0xBF00);
    let mut cpu = CortexM0Plus::with_id(0);
    cpu.regs.msp = 0x2000_8000;
    cpu.regs.r[13] = 0x2000_8000;
    cpu.regs.set_pc(0x0000_0100);
    cpu.regs.xpsr = 1 << 24;
    emu.bus.ppb[0].icsr |= 1 << 28;
    let cycles = cpu.step(&mut emu.bus);
    assert!(cycles > 0, "PendSV entry must consume cycles");
    assert_eq!(emu.bus.ppb[0].icsr & (1 << 28), 0, "PENDSVSET cleared");
    assert_ne!(cpu.regs.ipsr() & 0x3F, 0, "CPU is in handler mode");
}

#[test]
fn try_take_any_pending_dispatches_systick() {
    let mut emu = Emulator::new(Config::default());
    let mut rom = vec![0u8; rp2040_emu::ROM_SIZE];
    rom[0..4].copy_from_slice(&0x2000_8000u32.to_le_bytes());
    rom[4..8].copy_from_slice(&0x0000_0101u32.to_le_bytes());
    rom[0x3C..0x40].copy_from_slice(&0x2000_2001u32.to_le_bytes());
    emu.bus.memory.load_rom(&rom);
    emu.bus.memory.sram_write16(0x2000, 0xBF00);
    let mut cpu = CortexM0Plus::with_id(0);
    cpu.regs.msp = 0x2000_8000;
    cpu.regs.r[13] = 0x2000_8000;
    cpu.regs.set_pc(0x0000_0100);
    cpu.regs.xpsr = 1 << 24;
    emu.bus.ppb[0].icsr |= 1 << 26;
    let cycles = cpu.step(&mut emu.bus);
    assert!(cycles > 0);
    assert_eq!(emu.bus.ppb[0].icsr & (1 << 26), 0, "PENDSTSET cleared");
    assert_ne!(cpu.regs.ipsr() & 0x3F, 0);
}

#[test]
fn try_take_any_pending_pendsv_wins_tiebreak_with_systick() {
    let mut emu = Emulator::new(Config::default());
    let mut rom = vec![0u8; rp2040_emu::ROM_SIZE];
    rom[0..4].copy_from_slice(&0x2000_8000u32.to_le_bytes());
    rom[4..8].copy_from_slice(&0x0000_0101u32.to_le_bytes());
    rom[0x38..0x3C].copy_from_slice(&0x2000_2001u32.to_le_bytes());
    rom[0x3C..0x40].copy_from_slice(&0x2000_4001u32.to_le_bytes());
    emu.bus.memory.load_rom(&rom);
    emu.bus.memory.sram_write16(0x2000, 0xBF00);
    emu.bus.memory.sram_write16(0x4000, 0xBF00);
    let mut cpu = CortexM0Plus::with_id(0);
    cpu.regs.msp = 0x2000_8000;
    cpu.regs.r[13] = 0x2000_8000;
    cpu.regs.set_pc(0x0000_0100);
    cpu.regs.xpsr = 1 << 24;
    emu.bus.ppb[0].icsr |= (1 << 28) | (1 << 26);
    let _ = cpu.step(&mut emu.bus);
    assert_eq!(emu.bus.ppb[0].icsr & (1 << 28), 0, "PENDSVSET cleared");
    assert_ne!(emu.bus.ppb[0].icsr & (1 << 26), 0, "PENDSTSET still set");
    assert_eq!(cpu.regs.ipsr() & 0x3F, 14);
}
