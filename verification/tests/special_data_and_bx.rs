use rp2040_emu::bus::Bus;
use rp2040_emu::cpu::CortexM0Plus;

#[test]
fn add_high_reg_no_flag_update() {
    let mut cpu = CortexM0Plus::new();
    cpu.regs.r[0] = 1;
    cpu.regs.r[8] = 2;
    cpu.execute_one(0x4440);
    assert_eq!(cpu.regs.r[0], 3);
    assert!(!cpu.flag_z());
}

#[test]
fn cmp_high_reg_updates_flags() {
    let mut cpu = CortexM0Plus::new();
    cpu.regs.r[8] = 10;
    cpu.regs.r[9] = 10;
    cpu.execute_one(0x45C8);
    assert!(cpu.flag_z());
    assert!(cpu.flag_c());
}

#[test]
fn mov_high_reg_no_flag_update() {
    let mut cpu = CortexM0Plus::new();
    cpu.regs.r[8] = 0xABCD;
    cpu.execute_one(0x4640);
    assert_eq!(cpu.regs.r[0], 0xABCD);
}

#[test]
fn bx_register_sets_pc() {
    let mut cpu = CortexM0Plus::new();
    cpu.regs.r[2] = 0x2000_1001;
    cpu.execute_one(0x4710);
    assert_eq!(cpu.regs.r[15], 0x2000_1000);
}

#[test]
fn blx_register_writes_lr_and_pc() {
    let mut cpu = CortexM0Plus::new();
    cpu.regs.set_pc(0x1000);
    cpu.regs.r[3] = 0x2000_3001;
    cpu.execute_one_with_bus(0x4798, &mut Bus::default());
    assert_eq!(cpu.regs.r[14], 0x1003);
    assert_eq!(cpu.regs.r[15], 0x2000_3000);
}
