use rp2040_emu::bus::Bus;
use rp2040_emu::cpu::CortexM0Plus;

#[test]
fn stm_writes_registers_with_writeback() {
    let mut cpu = CortexM0Plus::new();
    let mut bus = Bus::default();
    cpu.regs.r[0] = 0x11;
    cpu.regs.r[1] = 0x22;
    cpu.regs.r[2] = 0x33;
    cpu.regs.r[4] = 0x2000_0000;
    cpu.execute_one_with_bus(0xC407, &mut bus);
    assert_eq!(bus.read32(0x2000_0000), 0x11);
    assert_eq!(bus.read32(0x2000_0004), 0x22);
    assert_eq!(bus.read32(0x2000_0008), 0x33);
    assert_eq!(cpu.regs.r[4], 0x2000_000C);
}

#[test]
fn ldm_reads_registers_with_writeback() {
    let mut cpu = CortexM0Plus::new();
    let mut bus = Bus::default();
    bus.write32(0x2000_0000, 0xAA);
    bus.write32(0x2000_0004, 0xBB);
    cpu.regs.r[4] = 0x2000_0000;
    cpu.execute_one_with_bus(0xCC03, &mut bus);
    assert_eq!(cpu.regs.r[0], 0xAA);
    assert_eq!(cpu.regs.r[1], 0xBB);
    assert_eq!(cpu.regs.r[4], 0x2000_0008);
}

#[test]
fn ldm_no_writeback_when_rn_in_reglist() {
    let mut cpu = CortexM0Plus::new();
    let mut bus = Bus::default();
    bus.write32(0x2000_0000, 0x1234_5678);
    cpu.regs.r[0] = 0x2000_0000;
    cpu.execute_one_with_bus(0xC801, &mut bus);
    assert_eq!(cpu.regs.r[0], 0x1234_5678);
}

#[test]
fn stm_single_register() {
    let mut cpu = CortexM0Plus::new();
    let mut bus = Bus::default();
    cpu.regs.r[0] = 0xCAFE;
    cpu.regs.r[4] = 0x2000_0000;
    cpu.execute_one_with_bus(0xC401, &mut bus);
    assert_eq!(bus.read32(0x2000_0000), 0xCAFE);
    assert_eq!(cpu.regs.r[4], 0x2000_0004);
}
