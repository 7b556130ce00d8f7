use rp2040_emu::bus::Bus;
use rp2040_emu::cpu::CortexM0Plus;

#[test]
fn str_sp_relative() {
    let mut cpu = CortexM0Plus::new();
    let mut bus = Bus::default();
    cpu.regs.r[0] = 0xCAFE_F00D;
    cpu.regs.r[13] = 0x2000_1000;
    cpu.execute_one_with_bus(0x9004, &mut bus);
    assert_eq!(bus.read32(0x2000_1010), 0xCAFE_F00D);
}

#[test]
fn ldr_sp_relative() {
    let mut cpu = CortexM0Plus::new();
    let mut bus = Bus::default();
    bus.write32(0x2000_1020, 0x1234_5678);
    cpu.regs.r[13] = 0x2000_1000;
    cpu.execute_one_with_bus(0x9808, &mut bus);
    assert_eq!(cpu.regs.r[0], 0x1234_5678);
}

#[test]
fn adr_returns_pc_aligned_plus_offset() {
    let mut cpu = CortexM0Plus::new();
    cpu.regs.set_pc(0x0);
    cpu.execute_one(0xA001);
    assert_eq!(cpu.regs.r[0], 0x0000_0008);
}

#[test]
fn adr_aligns_pc_down_to_word() {
    let mut cpu = CortexM0Plus::new();
    cpu.regs.set_pc(0x2);
    cpu.execute_one(0xA000);
    assert_eq!(cpu.regs.r[0], 0x0000_0004);
}

#[test]
fn add_sp_imm8() {
    let mut cpu = CortexM0Plus::new();
    cpu.regs.r[13] = 0x2000_1000;
    cpu.execute_one(0xA802);
    assert_eq!(cpu.regs.r[0], 0x2000_1008);
}

#[test]
fn add_sp_imm8_max() {
    let mut cpu = CortexM0Plus::new();
    cpu.regs.r[13] = 0x2000_0000;
    cpu.execute_one(0xA8FF);
    assert_eq!(cpu.regs.r[0], 0x2000_03FC);
}
