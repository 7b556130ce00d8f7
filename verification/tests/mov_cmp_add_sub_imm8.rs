use rp2040_emu::cpu::CortexM0Plus;

#[test]
fn movs_imm8_sets_z_when_zero() {
    let mut cpu = CortexM0Plus::new();
    cpu.execute_one(0x2000);
    assert_eq!(cpu.regs.r[0], 0);
    assert!(cpu.flag_z());
}

#[test]
fn movs_imm8_clears_z_for_positive() {
    let mut cpu = CortexM0Plus::new();
    cpu.regs.set_flag_z(true);
    cpu.execute_one(0x2042);
    assert_eq!(cpu.regs.r[0], 0x42);
    assert!(!cpu.flag_z());
}

#[test]
fn cmp_imm8_sets_z_when_equal() {
    let mut cpu = CortexM0Plus::new();
    cpu.regs.r[0] = 0x42;
    cpu.execute_one(0x2842);
    assert_eq!(cpu.regs.r[0], 0x42);
    assert!(cpu.flag_z());
    assert!(cpu.flag_c());
}

#[test]
fn adds_imm8_wraps_and_sets_carry() {
    let mut cpu = CortexM0Plus::new();
    cpu.regs.r[0] = 0xFFFF_FFFF;
    cpu.execute_one(0x3001);
    assert_eq!(cpu.regs.r[0], 0);
    assert!(cpu.flag_z());
    assert!(cpu.flag_c());
}

#[test]
fn subs_imm8() {
    let mut cpu = CortexM0Plus::new();
    cpu.regs.r[0] = 10;
    cpu.execute_one(0x3805);
    assert_eq!(cpu.regs.r[0], 5);
    assert!(cpu.flag_c());
}
