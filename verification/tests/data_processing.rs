use rp2040_emu::cpu::CortexM0Plus;

#[test]
fn ands_reg() {
    let mut cpu = CortexM0Plus::new();
    cpu.regs.r[0] = 0xF0F0;
    cpu.regs.r[1] = 0x0FF0;
    cpu.execute_one(0x4008);
    assert_eq!(cpu.regs.r[0], 0x00F0);
}

#[test]
fn eors_reg_sets_z_on_self() {
    let mut cpu = CortexM0Plus::new();
    cpu.regs.r[0] = 0xDEAD_BEEF;
    cpu.execute_one(0x4040);
    assert_eq!(cpu.regs.r[0], 0);
    assert!(cpu.flag_z());
}

#[test]
fn lsls_reg_shift_by_zero_preserves_carry() {
    let mut cpu = CortexM0Plus::new();
    cpu.regs.r[0] = 0x1234;
    cpu.regs.r[1] = 0;
    cpu.regs.set_flag_c(true);
    cpu.execute_one(0x4088);
    assert_eq!(cpu.regs.r[0], 0x1234);
    assert!(cpu.flag_c());
}

#[test]
fn lsls_reg_shift_by_33_clears_value_and_carry() {
    let mut cpu = CortexM0Plus::new();
    cpu.regs.r[0] = 0xFFFF_FFFF;
    cpu.regs.r[1] = 33;
    cpu.execute_one(0x4088);
    assert_eq!(cpu.regs.r[0], 0);
    assert!(!cpu.flag_c());
}

#[test]
fn lsrs_reg_shift_by_32_moves_bit31_to_carry() {
    let mut cpu = CortexM0Plus::new();
    cpu.regs.r[0] = 0x8000_0000;
    cpu.regs.r[1] = 32;
    cpu.execute_one(0x40C8);
    assert_eq!(cpu.regs.r[0], 0);
    assert!(cpu.flag_c());
}

#[test]
fn asrs_reg_large_shift_saturates_sign() {
    let mut cpu = CortexM0Plus::new();
    cpu.regs.r[0] = 0x8000_0000;
    cpu.regs.r[1] = 40;
    cpu.execute_one(0x4108);
    assert_eq!(cpu.regs.r[0], 0xFFFF_FFFF);
    assert!(cpu.flag_c());
}

#[test]
fn adcs_reg_respects_carry_in() {
    let mut cpu = CortexM0Plus::new();
    cpu.regs.r[0] = 1;
    cpu.regs.r[1] = 1;
    cpu.regs.set_flag_c(true);
    cpu.execute_one(0x4148);
    assert_eq!(cpu.regs.r[0], 3);
}

#[test]
fn sbcs_reg_with_carry_in() {
    let mut cpu = CortexM0Plus::new();
    cpu.regs.r[0] = 10;
    cpu.regs.r[1] = 3;
    cpu.regs.set_flag_c(true);
    cpu.execute_one(0x4188);
    assert_eq!(cpu.regs.r[0], 7);
}

#[test]
fn rors_reg() {
    let mut cpu = CortexM0Plus::new();
    cpu.regs.r[0] = 0x0000_0001;
    cpu.regs.r[1] = 1;
    cpu.execute_one(0x41C8);
    assert_eq!(cpu.regs.r[0], 0x8000_0000);
    assert!(cpu.flag_c());
    assert!(cpu.flag_n());
}

#[test]
fn tst_reg_updates_flags_no_dest() {
    let mut cpu = CortexM0Plus::new();
    cpu.regs.r[0] = 0xFF;
    cpu.regs.r[1] = 0x100;
    cpu.execute_one(0x4208);
    assert_eq!(cpu.regs.r[0], 0xFF);
    assert!(cpu.flag_z());
}

#[test]
fn rsbs_neg_negates_value() {
    let mut cpu = CortexM0Plus::new();
    cpu.regs.r[1] = 5;
    cpu.execute_one(0x4248);
    assert_eq!(cpu.regs.r[0], 0xFFFF_FFFB);
    assert!(cpu.flag_n());
}

#[test]
fn cmp_reg_low_equal() {
    let mut cpu = CortexM0Plus::new();
    cpu.regs.r[0] = 7;
    cpu.regs.r[1] = 7;
    cpu.execute_one(0x4288);
    assert!(cpu.flag_z());
    assert!(cpu.flag_c());
}

#[test]
fn cmn_reg_low() {
    let mut cpu = CortexM0Plus::new();
    cpu.regs.r[0] = 1;
    cpu.regs.r[1] = 0xFFFF_FFFF;
    cpu.execute_one(0x42C8);
    assert!(cpu.flag_z());
    assert!(cpu.flag_c());
}

#[test]
fn orrs_reg() {
    let mut cpu = CortexM0Plus::new();
    cpu.regs.r[0] = 0xF0;
    cpu.regs.r[1] = 0x0F;
    cpu.execute_one(0x4308);
    assert_eq!(cpu.regs.r[0], 0xFF);
}

#[test]
fn muls_low_32_bits() {
    let mut cpu = CortexM0Plus::new();
    cpu.regs.r[0] = 7;
    cpu.regs.r[1] = 6;
    cpu.execute_one(0x4348);
    assert_eq!(cpu.regs.r[0], 42);
}

#[test]
fn muls_discards_overflow() {
    let mut cpu = CortexM0Plus::new();
    cpu.regs.r[0] = 0x1_0000;
    cpu.regs.r[1] = 0x1_0000;
    cpu.execute_one(0x4348);
    assert_eq!(cpu.regs.r[0], 0);
    assert!(cpu.flag_z());
}

#[test]
fn mul_preserves_c_and_v() {
    let mut cpu = CortexM0Plus::new();
    cpu.regs.r[0] = 7;
    cpu.regs.r[1] = 6;
    cpu.regs.set_flag_c(true);
    cpu.regs.set_flag_v(true);
    cpu.execute_one(0x4348);
    assert_eq!(cpu.regs.r[0], 42);
    assert!(!cpu.flag_n());
    assert!(!cpu.flag_z());
    assert!(cpu.flag_c());
    assert!(cpu.flag_v());
}

#[test]
fn bics_clears_bits() {
    let mut cpu = CortexM0Plus::new();
    cpu.regs.r[0] = 0xFF;
    cpu.regs.r[1] = 0x0F;
    cpu.execute_one(0x4388);
    assert_eq!(cpu.regs.r[0], 0xF0);
}

#[test]
fn mvns_inverts_bits() {
    let mut cpu = CortexM0Plus::new();
    cpu.regs.r[1] = 0;
    cpu.execute_one(0x43C8);
    assert_eq!(cpu.regs.r[0], 0xFFFF_FFFF);
    assert!(cpu.flag_n());
}
