use rp2040_emu::cpu::CortexM0Plus;

#[test]
fn lsls_imm_sets_carry_from_msb_shifted_out() {
    let mut cpu = CortexM0Plus::new();
    cpu.regs.r[1] = 0x8000_0000;
    cpu.execute_one(0x0048);
    assert_eq!(cpu.regs.r[0], 0);
    assert!(cpu.flag_z());
    assert!(cpu.flag_c());
}

#[test]
fn lsls_imm_zero_is_movs_preserves_carry() {
    let mut cpu = CortexM0Plus::new();
    cpu.regs.set_flag_c(true);
    cpu.regs.r[1] = 0x1234;
    cpu.execute_one(0x0008);
    assert_eq!(cpu.regs.r[0], 0x1234);
    assert!(cpu.flag_c());
}

#[test]
fn lsrs_imm_zero_means_shift_by_32() {
    let mut cpu = CortexM0Plus::new();
    cpu.regs.r[1] = 0x8000_0000;
    cpu.execute_one(0x0848);
    assert_eq!(cpu.regs.r[0], 0x4000_0000);
    assert!(!cpu.flag_c());
    let mut cpu = CortexM0Plus::new();
    cpu.regs.r[1] = 0x8000_0000;
    cpu.execute_one(0x0808);
    assert_eq!(cpu.regs.r[0], 0);
    assert!(cpu.flag_z());
    assert!(cpu.flag_c());
}

#[test]
fn asrs_imm_sign_extends() {
    let mut cpu = CortexM0Plus::new();
    cpu.regs.r[1] = 0xFFFF_FFFE;
    cpu.execute_one(0x1048);
    assert_eq!(cpu.regs.r[0], 0xFFFF_FFFF);
    assert!(cpu.flag_n());
    assert!(!cpu.flag_c());
}

#[test]
fn asrs_imm_zero_is_shift_by_32() {
    let mut cpu = CortexM0Plus::new();
    cpu.regs.r[1] = 0x8000_0000;
    cpu.execute_one(0x1008);
    assert_eq!(cpu.regs.r[0], 0xFFFF_FFFF);
    assert!(cpu.flag_n());
    assert!(cpu.flag_c());
}
