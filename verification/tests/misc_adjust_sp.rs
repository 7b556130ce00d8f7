use rp2040_emu::cpu::CortexM0Plus;

#[test]
fn add_sp_sp_imm7() {
    let mut cpu = CortexM0Plus::new();
    cpu.regs.r[13] = 0x2000_1000;
    cpu.execute_one(0xB002);
    assert_eq!(cpu.regs.r[13], 0x2000_1008);
}

#[test]
fn sub_sp_sp_imm7() {
    let mut cpu = CortexM0Plus::new();
    cpu.regs.r[13] = 0x2000_1000;
    cpu.execute_one(0xB082);
    assert_eq!(cpu.regs.r[13], 0x2000_0FF8);
}

#[test]
fn add_sp_max_offset() {
    let mut cpu = CortexM0Plus::new();
    cpu.regs.r[13] = 0x0;
    cpu.execute_one(0xB07F);
    assert_eq!(cpu.regs.r[13], 0x1FC);
}
