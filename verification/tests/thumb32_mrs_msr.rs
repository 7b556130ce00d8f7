use rp2040_emu::cpu::CortexM0Plus;

#[test]
fn mrs_reads_primask() {
    let mut cpu = CortexM0Plus::new();
    cpu.regs.primask = 1;
    cpu.execute_one_wide(0xF3EF, 0x8010);
    assert_eq!(cpu.regs.r[0], 1);
}

#[test]
fn mrs_reads_xpsr_flags() {
    let mut cpu = CortexM0Plus::new();
    cpu.regs.set_flag_n(true);
    cpu.regs.set_flag_c(true);
    cpu.execute_one_wide(0xF3EF, 0x8100);
    assert_eq!(cpu.regs.r[1] & 0xF000_0000, 0xA000_0000);
}

#[test]
fn msr_writes_primask() {
    let mut cpu = CortexM0Plus::new();
    cpu.regs.r[2] = 0xFFFF_FFFF;
    cpu.execute_one_wide(0xF382, 0x8810);
    assert_eq!(cpu.regs.primask, 1);
}

#[test]
fn msr_writes_control_thread_mode() {
    let mut cpu = CortexM0Plus::new();
    cpu.regs.msp = 0x2000_0100;
    cpu.regs.psp = 0x2000_0200;
    cpu.regs.r[3] = 0x2;
    cpu.execute_one_wide(0xF383, 0x8814);
    assert_eq!(cpu.regs.control, 0x2);
    assert_eq!(cpu.regs.sp(), 0x2000_0200);
}

#[test]
fn msr_reserved_sysm_raises_fault() {
    let mut cpu = CortexM0Plus::new();
    cpu.regs.r[0] = 0xDEAD_BEEF;
    cpu.execute_one_wide(0xF380, 0x8804);
    assert!(cpu.has_pending_fault());
}

#[test]
fn mrs_reserved_sysm_raises_fault() {
    let mut cpu = CortexM0Plus::new();
    cpu.execute_one_wide(0xF3EF, 0x800F);
    assert!(cpu.has_pending_fault());
}
