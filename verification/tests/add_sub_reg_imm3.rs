use rp2040_emu::cpu::CortexM0Plus;

#[test]
fn adds_reg_sets_all_flags() {
    let mut cpu = CortexM0Plus::new();
    cpu.regs.r[1] = 0x7FFF_FFFF;
    cpu.regs.r[2] = 1;
    cpu.execute_one(0x1888);
    assert_eq!(cpu.regs.r[0], 0x8000_0000);
    assert!(cpu.flag_n() && !cpu.flag_z() && !cpu.flag_c() && cpu.flag_v());
}

#[test]
fn subs_reg_sets_carry_on_no_borrow() {
    let mut cpu = CortexM0Plus::new();
    cpu.regs.r[1] = 10;
    cpu.regs.r[2] = 3;
    cpu.execute_one(0x1A88);
    assert_eq!(cpu.regs.r[0], 7);
    assert!(!cpu.flag_n() && !cpu.flag_z() && cpu.flag_c() && !cpu.flag_v());
}

#[test]
fn subs_reg_clears_carry_on_borrow() {
    let mut cpu = CortexM0Plus::new();
    cpu.regs.r[1] = 3;
    cpu.regs.r[2] = 10;
    cpu.execute_one(0x1A88);
    assert_eq!(cpu.regs.r[0], 0xFFFF_FFF9);
    assert!(cpu.flag_n() && !cpu.flag_z() && !cpu.flag_c());
}

#[test]
fn adds_imm3_sets_z_when_zero() {
    let mut cpu = CortexM0Plus::new();
    cpu.regs.r[1] = 0;
    cpu.execute_one(0x1C08);
    assert_eq!(cpu.regs.r[0], 0);
    assert!(cpu.flag_z());
}

#[test]
fn subs_imm3() {
    let mut cpu = CortexM0Plus::new();
    cpu.regs.r[1] = 5;
    cpu.execute_one(0x1E88);
    assert_eq!(cpu.regs.r[0], 3);
    assert!(!cpu.flag_n() && !cpu.flag_z() && cpu.flag_c());
}
