use rp2040_emu::cpu::CortexM0Plus;

#[test]
fn msr_apsr_sysm_0_writes_nzcv_only() {
    let mut cpu = CortexM0Plus::new();
    cpu.regs.r[0] = 0xF800_0000;
    cpu.regs.xpsr = 0x0100_0000;
    cpu.execute_one_wide(0xF380, 0x8800);
    assert_eq!(
        cpu.regs.xpsr & 0xF000_0000,
        0xF000_0000,
        "NZCV must all be set"
    );
    assert_eq!(
        cpu.regs.xpsr & 0x0800_0000,
        0,
        "Q (bit 27) is not architected on M0+ APSR"
    );
    assert_eq!(cpu.regs.xpsr & 0x0100_0000, 0x0100_0000);
    assert!(!cpu.has_pending_fault());
}

#[test]
fn mrs_msp_returns_msp_when_active() {
    let mut cpu = CortexM0Plus::new();
    let seed = 0x2000_1000u32;
    cpu.regs.r[13] = seed;
    cpu.execute_one_wide(0xF3EF, 0x8008);
    assert_eq!(cpu.regs.r[0], seed);
}

#[test]
fn mrs_msp_returns_banked_msp_when_inactive() {
    let mut cpu = CortexM0Plus::new();
    cpu.regs.control = 0x2;
    cpu.regs.msp = 0xCAFE_F00D;
    cpu.regs.r[13] = 0x1234_5678;
    cpu.execute_one_wide(0xF3EF, 0x8008);
    assert_eq!(cpu.regs.r[0], 0xCAFE_F00D);
}

#[test]
fn mrs_psp_returns_psp_when_active() {
    let mut cpu = CortexM0Plus::new();
    cpu.regs.control = 0x2;
    let seed = 0xE8A8_B844u32;
    cpu.regs.r[13] = seed;
    cpu.execute_one_wide(0xF3EF, 0x8009);
    assert_eq!(cpu.regs.r[0], seed);
}

#[test]
fn mrs_psp_returns_banked_psp_when_inactive() {
    let mut cpu = CortexM0Plus::new();
    cpu.regs.psp = 0xDEAD_BEEF;
    cpu.regs.r[13] = 0x2000_1000;
    cpu.execute_one_wide(0xF3EF, 0x8009);
    assert_eq!(cpu.regs.r[0], 0xDEAD_BEEF);
}

#[test]
fn mrs_psp_in_handler_returns_banked_psp() {
    let mut cpu = CortexM0Plus::new();
    cpu.regs.control = 0x2;
    cpu.regs.xpsr = 0x0100_0000 | 18;
    cpu.regs.psp = 0xCAFE_BAB0;
    cpu.regs.r[13] = 0x2000_1000;
    cpu.execute_one_wide(0xF3EF, 0x8009);
    assert_eq!(cpu.regs.r[0], 0xCAFE_BAB0);
    assert!(!cpu.regs.active_sp_is_psp());
}

#[test]
fn msr_msp_writes_msp_only_when_psp_active() {
    let mut cpu = CortexM0Plus::new();
    cpu.regs.control = 0x2;
    cpu.regs.r[13] = 0x2000_4000;
    cpu.regs.psp = 0x2000_4000;
    cpu.regs.r[0] = 0x2000_8000;
    cpu.execute_one_wide(0xF380, 0x8808);
    assert_eq!(cpu.regs.msp, 0x2000_8000, "MSP bank updated");
    assert_eq!(cpu.regs.r[13], 0x2000_4000, "active SP (PSP) untouched");
    cpu.execute_one_wide(0xF3EF, 0x8108);
    assert_eq!(cpu.regs.r[1], 0x2000_8000);
}

#[test]
fn msr_psp_writes_psp_only_when_msp_active() {
    let mut cpu = CortexM0Plus::new();
    cpu.regs.r[13] = 0x2000_2000;
    cpu.regs.r[0] = 0x2000_5000;
    cpu.execute_one_wide(0xF380, 0x8809);
    assert_eq!(cpu.regs.psp, 0x2000_5000, "PSP bank updated");
    assert_eq!(cpu.regs.r[13], 0x2000_2000, "active SP (MSP) untouched");
    cpu.execute_one_wide(0xF3EF, 0x8109);
    assert_eq!(cpu.regs.r[1], 0x2000_5000);
}

#[test]
fn msr_control_spsel_switches_sp() {
    let mut cpu = CortexM0Plus::new();
    let a = 0x2000_8000u32;
    let b = 0x2000_C000u32;
    cpu.regs.r[13] = a;
    cpu.regs.psp = b;
    cpu.regs.r[0] = 0x2;
    cpu.execute_one_wide(0xF380, 0x8814);
    assert_eq!(cpu.regs.control, 0x2);
    assert_eq!(cpu.regs.r[13], b, "r[13] now tracks PSP");
    assert_eq!(cpu.regs.msp, a, "MSP saved to bank");
}
