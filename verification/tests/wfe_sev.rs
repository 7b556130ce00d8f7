use rp2040_emu::{Config, EmulatorBuilder};
use rp2040_emu::bus::Bus;
use rp2040_emu::cpu::CortexM0Plus;

const WFE: u16 = 0xBF20;
const WFI: u16 = 0xBF30;
const SEV: u16 = 0xBF40;

#[test]
fn wfe_no_event_parks_core() {
    let mut bus = Bus::new();
    let mut core = CortexM0Plus::with_id(0);
    assert!(!bus.event_flag[0]);
    assert!(!bus.wfe_waiting[0]);
    let cycles = core.execute_one_with_bus(WFE, &mut bus);
    assert_eq!(cycles, 1);
    assert!(bus.wfe_waiting[0], "WFE with no event must park core 0");
    assert!(!bus.event_flag[0], "event_flag[0] must remain unset");
}

#[test]
fn wfe_with_latched_event_falls_through() {
    let mut bus = Bus::new();
    let mut core = CortexM0Plus::with_id(0);
    bus.event_flag[0] = true;
    let cycles = core.execute_one_with_bus(WFE, &mut bus);
    assert_eq!(cycles, 1);
    assert!(!bus.wfe_waiting[0], "consumed event must not park core");
    assert!(!bus.event_flag[0], "event_flag must be consumed");
}

#[test]
fn sev_then_wfe_on_same_core_no_sleep() {
    let mut bus = Bus::new();
    let mut core = CortexM0Plus::with_id(0);
    let c1 = core.execute_one_with_bus(SEV, &mut bus);
    assert_eq!(c1, 1);
    assert!(bus.event_flag[0] && bus.event_flag[1]);
    let c2 = core.execute_one_with_bus(WFE, &mut bus);
    assert_eq!(c2, 1);
    assert!(!bus.wfe_waiting[0]);
    assert!(!bus.event_flag[0]);
    assert!(bus.event_flag[1]);
}

#[test]
fn sev_from_core1_wakes_core0_from_wfe() {
    let mut emu = EmulatorBuilder::new(Config::default())
        .step_quantum(1)
        .build()
        .expect("Serial build is infallible");
    emu.bus.wfe_waiting[0] = true;
    emu.cores[1].halt();
    emu.bus.signal_sev();
    let _ = emu.step().expect("Serial step is infallible");
    assert!(!emu.bus.wfe_waiting[0], "WFE wake must un-park core 0");
    assert!(!emu.bus.event_flag[0], "consumed event flag");
}

#[test]
fn wfi_with_no_pending_irq_halts() {
    let mut bus = Bus::new();
    let mut core = CortexM0Plus::with_id(0);
    let cycles = core.execute_one_with_bus(WFI, &mut bus);
    assert_eq!(cycles, 1);
    assert!(core.is_halted(), "WFI with no IRQ must halt core");
}

#[test]
fn wfi_with_pending_enabled_irq_falls_through() {
    let mut bus = Bus::new();
    let mut core = CortexM0Plus::with_id(0);
    bus.nvics[0].set_enabled(5);
    bus.nvics[0].set_pending(5);
    let cycles = core.execute_one_with_bus(WFI, &mut bus);
    assert_eq!(cycles, 1);
    assert!(
        !core.is_halted(),
        "pending+enabled IRQ must keep core running"
    );
}

#[test]
fn wfi_wakes_on_subsequent_irq_assert() {
    let mut emu = EmulatorBuilder::new(Config::default())
        .step_quantum(1)
        .build()
        .expect("Serial build is infallible");
    emu.cores[1].halt();
    let prog = 0x2000_0000u32;
    emu.bus.write16(prog, WFI);
    emu.cores[0].regs.set_pc(prog);
    let _ = emu.step().expect("Serial step is infallible");
    assert!(emu.cores[0].is_halted(), "WFI must halt core 0");
    emu.bus.nvics[0].set_enabled(7);
    emu.bus.nvics[0].set_pending(7);
    let _ = emu.step().expect("Serial step is infallible");
    assert!(!emu.cores[0].is_halted(), "WFI wake on IRQ assert");
}

#[test]
fn wfi_ignores_primask_for_wake_decision() {
    let mut emu = EmulatorBuilder::new(Config::default())
        .step_quantum(1)
        .build()
        .expect("Serial build is infallible");
    emu.cores[1].halt();
    emu.cores[0].regs.primask = 1;
    let prog = 0x2000_0000u32;
    emu.bus.write16(prog, WFI);
    emu.cores[0].regs.set_pc(prog);
    let _ = emu.step().expect("Serial step is infallible");
    assert!(emu.cores[0].is_halted());
    emu.bus.nvics[0].set_enabled(3);
    emu.bus.nvics[0].set_pending(3);
    let _ = emu.step().expect("Serial step is infallible");
    assert!(!emu.cores[0].is_halted(), "PRIMASK must not block WFI wake");
    assert_eq!(
        emu.cores[0].regs.ipsr(),
        0,
        "PRIMASK must defer exception entry"
    );
}

#[test]
fn fifo_write_from_core0_wakes_core1_from_wfe() {
    let mut emu = EmulatorBuilder::new(Config::default())
        .step_quantum(1)
        .build()
        .expect("Serial build is infallible");
    emu.wake_core1();
    emu.bus.wfe_waiting[1] = true;
    emu.cores[0].halt();
    emu.bus.set_active_core(0);
    emu.bus.write32(0xD000_0054, 0xCAFE_BABE);
    assert!(
        emu.bus.event_flag[1],
        "FIFO push must set receiver event_flag"
    );
    let _ = emu.step().expect("Serial step is infallible");
    assert!(!emu.bus.wfe_waiting[1], "WFE wake from FIFO event");
    assert!(!emu.bus.event_flag[1], "event consumed by wake");
}

#[test]
fn emulator_step_skips_wfe_blocked_core() {
    let mut emu = EmulatorBuilder::new(Config::default())
        .step_quantum(8)
        .build()
        .expect("Serial build is infallible");
    let prog = 0x2000_1000u32;
    emu.bus.write16(prog, 0xBF00);
    emu.bus.write16(prog + 2, 0xE7FD);
    emu.cores[1].regs.set_pc(prog);
    emu.cores[1].regs.msp = 0x2003_8000;
    emu.cores[1].regs.r[13] = 0x2003_8000;
    emu.cores[1].wake();
    emu.bus.wfe_waiting[0] = true;
    let c0_before = emu.cores[0].cycles;
    let c1_before = emu.cores[1].cycles;
    let _ = emu.step().expect("Serial step is infallible");
    assert_eq!(
        emu.cores[0].cycles, c0_before,
        "wfe_waiting core must not advance"
    );
    assert!(
        emu.cores[1].cycles > c1_before,
        "non-blocked core must advance"
    );
}

#[test]
fn wake_checks_does_not_clear_unobserved_event_flag() {
    let mut emu = EmulatorBuilder::new(Config::default())
        .step_quantum(1)
        .build()
        .expect("Serial build is infallible");
    emu.cores[0].halt();
    emu.bus.signal_sev();
    assert!(emu.bus.event_flag[0] && emu.bus.event_flag[1]);
    let _ = emu.step().expect("Serial step is infallible");
    assert!(
        emu.bus.event_flag[0],
        "event_flag[0] must survive wake_checks without a waiter",
    );
    assert!(
        emu.bus.event_flag[1],
        "event_flag[1] must survive wake_checks without a waiter",
    );
}

#[test]
fn both_cores_wfe_blocked_quantum_breaks_cleanly() {
    let mut emu = EmulatorBuilder::new(Config::default())
        .step_quantum(8)
        .build()
        .expect("Serial build is infallible");
    emu.cores[1].wake();
    emu.bus.wfe_waiting[0] = true;
    emu.bus.wfe_waiting[1] = true;
    let c0_before = emu.cores[0].cycles;
    let c1_before = emu.cores[1].cycles;
    let consumed = emu.step().expect("Serial step is infallible");
    assert_eq!(consumed, 0, "both blocked → no cycles consumed");
    assert_eq!(emu.cores[0].cycles, c0_before);
    assert_eq!(emu.cores[1].cycles, c1_before);
}
