use rp2040_emu::cpu::CortexM0Plus;
use rp2040_emu::fixtures::make_test_bus_with_vector_table;

#[test]
fn svc_delivers_exception_11() {
    let (mut bus, handlers) = make_test_bus_with_vector_table();
    let mut cpu = CortexM0Plus::new();
    cpu.regs.msp = 0x2000_8000;
    cpu.regs.set_sp(0x2000_8000);
    let prog = 0x2000_4000u32;
    bus.write16(prog, 0xDF00);
    cpu.regs.set_pc(prog);
    let cycles = cpu.step(&mut bus);
    assert_eq!(cpu.regs.ipsr(), 11);
    assert_eq!(cpu.regs.pc(), handlers[11]);
    assert_eq!(cpu.regs.sp(), 0x2000_8000 - 32);
    assert_eq!(cpu.regs.lr(), 0xFFFF_FFF9);
    assert!(cycles >= 16);
}

#[test]
fn bkpt_delivers_hardfault() {
    let (mut bus, handlers) = make_test_bus_with_vector_table();
    let mut cpu = CortexM0Plus::new();
    cpu.regs.msp = 0x2000_8000;
    cpu.regs.set_sp(0x2000_8000);
    let prog = 0x2000_4000u32;
    bus.write16(prog, 0xBE00);
    cpu.regs.set_pc(prog);
    cpu.step(&mut bus);
    assert_eq!(cpu.regs.ipsr(), 3);
    assert_eq!(cpu.regs.pc(), handlers[3]);
}

#[test]
fn undefined_encoding_delivers_hardfault() {
    let (mut bus, handlers) = make_test_bus_with_vector_table();
    let mut cpu = CortexM0Plus::new();
    cpu.regs.msp = 0x2000_8000;
    cpu.regs.set_sp(0x2000_8000);
    let prog = 0x2000_4000u32;
    bus.write16(prog, 0xF000);
    bus.write16(prog + 2, 0x0000);
    cpu.regs.set_pc(prog);
    cpu.step(&mut bus);
    assert_eq!(cpu.regs.ipsr(), 3);
    assert_eq!(cpu.regs.pc(), handlers[3]);
}

#[test]
fn nmi_enters_handler_2() {
    let (mut bus, handlers) = make_test_bus_with_vector_table();
    let mut cpu = CortexM0Plus::new();
    cpu.regs.msp = 0x2000_8000;
    cpu.regs.set_sp(0x2000_8000);
    cpu.test_enter_exception(2, &mut bus);
    assert_eq!(cpu.regs.ipsr(), 2);
    assert_eq!(cpu.regs.pc(), handlers[2]);
}

#[test]
fn exc_return_thread_msp_restores_state() {
    let (mut bus, _handlers) = make_test_bus_with_vector_table();
    let mut cpu = CortexM0Plus::new();
    cpu.regs.msp = 0x2000_8000;
    cpu.regs.set_sp(0x2000_8000);
    for i in 0..4 {
        cpu.regs.r[i] = 0x1000 + i as u32;
    }
    cpu.regs.r[12] = 0xC12;
    cpu.regs.set_lr(0xBADC0DE1);
    cpu.regs.set_pc(0x1000);
    cpu.test_enter_exception(11, &mut bus);
    cpu.regs.r[0] = 0xFFFF_FFFF;
    cpu.test_exit_exception(0xFFFF_FFF9, &mut bus);
    assert_eq!(cpu.regs.ipsr(), 0, "Back in thread mode");
    assert_eq!(cpu.regs.r[0], 0x1000);
    assert_eq!(cpu.regs.r[12], 0xC12);
    assert_eq!(cpu.regs.pc(), 0x1000);
    assert_eq!(cpu.regs.sp(), 0x2000_8000);
}

#[test]
fn exc_return_thread_psp_restores_psp_and_sp_selection() {
    let (mut bus, _handlers) = make_test_bus_with_vector_table();
    let mut cpu = CortexM0Plus::new();
    cpu.regs.msp = 0x2000_8000;
    cpu.regs.psp = 0x2000_4000;
    cpu.regs.control = 0x2;
    cpu.regs.set_sp(0x2000_4000);
    cpu.regs.set_pc(0x1100);
    cpu.test_enter_exception(11, &mut bus);
    assert_eq!(cpu.regs.lr(), 0xFFFF_FFFD);
    cpu.test_exit_exception(0xFFFF_FFFD, &mut bus);
    assert_eq!(cpu.regs.control & 0x2, 0x2, "Back to PSP in thread mode");
    assert_eq!(cpu.regs.sp(), 0x2000_4000);
}

#[test]
fn exc_return_handler_requires_active_exception() {
    let (mut bus, _handlers) = make_test_bus_with_vector_table();
    let mut cpu = CortexM0Plus::new();
    cpu.regs.msp = 0x2000_8000;
    cpu.regs.set_sp(0x2000_8000);
    cpu.regs.set_pc(0x1000);
    cpu.test_enter_exception(11, &mut bus);
    let lr_after_nmi = cpu.regs.lr();
    cpu.test_enter_exception(2, &mut bus);
    assert_eq!(cpu.regs.lr(), 0xFFFF_FFF1);
    let _ = lr_after_nmi;
    cpu.test_exit_exception(0xFFFF_FFF1, &mut bus);
    assert_eq!(cpu.regs.ipsr(), 11);
}

#[test]
fn exc_return_invalid_low_nibble_raises_hardfault() {
    let (mut bus, _handlers) = make_test_bus_with_vector_table();
    let mut cpu = CortexM0Plus::new();
    cpu.regs.msp = 0x2000_8000;
    cpu.regs.set_sp(0x2000_8000);
    cpu.test_enter_exception(11, &mut bus);
    cpu.test_exit_exception(0xFFFF_FFF2, &mut bus);
    assert!(cpu.has_pending_fault());
}

#[test]
fn bx_to_exc_return_unwinds() {
    let (mut bus, _handlers) = make_test_bus_with_vector_table();
    let mut cpu = CortexM0Plus::new();
    cpu.regs.msp = 0x2000_8000;
    cpu.regs.set_sp(0x2000_8000);
    cpu.regs.set_pc(0x1000);
    cpu.test_enter_exception(11, &mut bus);
    bus.write16(cpu.regs.pc(), 0x4770);
    cpu.step(&mut bus);
    assert_eq!(cpu.regs.ipsr(), 0);
}

#[test]
fn handler_sp_mutations_sync_to_banked_on_exit() {
    let (mut bus, _handlers) = make_test_bus_with_vector_table();
    let mut cpu = CortexM0Plus::new();
    let initial_sp = 0x2000_3F00u32;
    cpu.regs.set_sp(initial_sp);
    cpu.regs.set_pc(0x1000);
    let handler = 0x2000_5000u32;
    bus.write32(0x2000_0000 + 11 * 4, handler | 1);
    bus.write16(handler, 0xB082);
    bus.write16(handler + 2, 0xB002);
    bus.write16(handler + 4, 0x4770);
    cpu.pending_fault = Some(rp2040_emu::cpu::Fault::Svc);
    cpu.step(&mut bus);
    assert_eq!(cpu.regs.ipsr(), 11);
    assert_eq!(cpu.regs.pc(), handler);
    assert_eq!(cpu.regs.sp(), initial_sp - 32);
    cpu.step(&mut bus);
    assert_eq!(cpu.regs.sp(), initial_sp - 40);
    cpu.step(&mut bus);
    assert_eq!(cpu.regs.sp(), initial_sp - 32);
    cpu.step(&mut bus);
    assert_eq!(cpu.regs.ipsr(), 0, "Returned to thread mode");
    assert_eq!(cpu.regs.sp(), initial_sp, "SP restored to pre-fault value");
}

#[test]
fn nonhardfault_with_t0_vector_escalates_to_hardfault() {
    let (mut bus, handlers) = make_test_bus_with_vector_table();
    let bad_svc = 0x2000_0200u32;
    bus.write32(0x2000_0000 + 11 * 4, bad_svc);
    let mut cpu = CortexM0Plus::new();
    cpu.regs.msp = 0x2000_8000;
    cpu.regs.set_sp(0x2000_8000);
    let prog = 0x2000_4000u32;
    bus.write16(prog, 0xDF00);
    cpu.regs.set_pc(prog);
    cpu.step(&mut bus);
    assert_eq!(cpu.regs.ipsr(), 0, "Did not yet enter any handler");
    assert!(cpu.has_pending_fault(), "HardFault staged");
    let fault = cpu.pending_fault.take().unwrap();
    cpu.deliver_fault(fault, &mut bus);
    assert_eq!(cpu.regs.ipsr(), 3);
    assert_eq!(cpu.regs.pc(), handlers[3]);
}

#[test]
fn exception_entry_pads_when_sp_is_4_aligned_not_8() {
    let (mut bus, _handlers) = make_test_bus_with_vector_table();
    let mut cpu = CortexM0Plus::new();
    let initial_sp = 0x2000_3FF4u32;
    cpu.regs.msp = initial_sp;
    cpu.regs.set_sp(initial_sp);
    cpu.regs.set_pc(0x1000);
    cpu.test_enter_exception(11, &mut bus);
    let frame_sp = initial_sp - 36;
    assert_eq!(cpu.regs.sp(), frame_sp);
    let stacked_xpsr = bus.read32(frame_sp + 28);
    assert_ne!(
        stacked_xpsr & (1 << 9),
        0,
        "STKALIGN padding bit recorded in stacked xPSR"
    );
    cpu.test_exit_exception(0xFFFF_FFF9, &mut bus);
    assert_eq!(cpu.regs.sp(), initial_sp);
}

#[test]
fn unmapped_load_escalates_to_hardfault() {
    let (mut bus, handlers) = make_test_bus_with_vector_table();
    let mut cpu = CortexM0Plus::new();
    cpu.regs.msp = 0x2000_8000;
    cpu.regs.set_sp(0x2000_8000);
    let prog = 0x2000_4000u32;
    bus.write16(prog, 0x6801);
    cpu.regs.r[0] = 0x7000_0000;
    cpu.regs.set_pc(prog);
    cpu.step(&mut bus);
    assert_eq!(cpu.regs.ipsr(), 3, "HardFault taken");
    assert_eq!(cpu.regs.pc(), handlers[3]);
    assert!(!bus.bus_fault(), "step() cleared the sticky bus_fault flag");
}

#[test]
fn is_in_hardfault_returns_true_when_ipsr_is_3() {
    let mut cpu = CortexM0Plus::new();
    assert!(!cpu.is_in_hardfault());
    cpu.regs.xpsr = (1 << 24) | 3;
    assert!(cpu.is_in_hardfault());
    for ipsr in [0u32, 1, 2, 11, 14, 15, 16, 32, 0x1FE] {
        cpu.regs.xpsr = (1 << 24) | ipsr;
        assert_eq!(
            cpu.is_in_hardfault(),
            ipsr == 3,
            "is_in_hardfault wrongly classified IPSR={}",
            ipsr,
        );
    }
    cpu.regs.xpsr = 0xF100_0003;
    assert!(cpu.is_in_hardfault());
    cpu.regs.xpsr = 0xF100_0004;
    assert!(!cpu.is_in_hardfault());
}
