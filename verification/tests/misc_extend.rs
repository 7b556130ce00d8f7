use rp2040_emu::cpu::CortexM0Plus;

#[test]
fn sxth_sign_extends_halfword() {
    let mut cpu = CortexM0Plus::new();
    cpu.regs.r[1] = 0xFFFF_8000;
    cpu.execute_one(0xB208);
    assert_eq!(cpu.regs.r[0], 0xFFFF_8000);
}

#[test]
fn sxtb_sign_extends_byte() {
    let mut cpu = CortexM0Plus::new();
    cpu.regs.r[1] = 0xFFFF_FF80;
    cpu.execute_one(0xB248);
    assert_eq!(cpu.regs.r[0], 0xFFFF_FF80);
}

#[test]
fn uxth_zero_extends() {
    let mut cpu = CortexM0Plus::new();
    cpu.regs.r[1] = 0xFFFF_FFFF;
    cpu.execute_one(0xB288);
    assert_eq!(cpu.regs.r[0], 0x0000_FFFF);
}

#[test]
fn uxtb_zero_extends() {
    let mut cpu = CortexM0Plus::new();
    cpu.regs.r[1] = 0xFFFF_FFFF;
    cpu.execute_one(0xB2C8);
    assert_eq!(cpu.regs.r[0], 0x0000_00FF);
}
