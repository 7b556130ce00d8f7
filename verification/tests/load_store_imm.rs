use rp2040_emu::bus::Bus;
use rp2040_emu::cpu::CortexM0Plus;

#[test]
fn str_imm_word() {
    let mut cpu = CortexM0Plus::new();
    let mut bus = Bus::default();
    cpu.regs.r[0] = 0x1234_5678;
    cpu.regs.r[1] = 0x2000_0000;
    cpu.execute_one_with_bus(0x6048, &mut bus);
    assert_eq!(bus.read32(0x2000_0004), 0x1234_5678);
}

#[test]
fn ldr_imm_word() {
    let mut cpu = CortexM0Plus::new();
    let mut bus = Bus::default();
    bus.write32(0x2000_0008, 0xDEAD_BEEF);
    cpu.regs.r[1] = 0x2000_0000;
    cpu.execute_one_with_bus(0x6888, &mut bus);
    assert_eq!(cpu.regs.r[0], 0xDEAD_BEEF);
}

#[test]
fn strb_imm() {
    let mut cpu = CortexM0Plus::new();
    let mut bus = Bus::default();
    cpu.regs.r[0] = 0xCD;
    cpu.regs.r[1] = 0x2000_0000;
    cpu.execute_one_with_bus(0x7048, &mut bus);
    assert_eq!(bus.read8(0x2000_0001), 0xCD);
}

#[test]
fn ldrb_imm() {
    let mut cpu = CortexM0Plus::new();
    let mut bus = Bus::default();
    bus.write8(0x2000_0002, 0xEF);
    cpu.regs.r[1] = 0x2000_0000;
    cpu.execute_one_with_bus(0x7888, &mut bus);
    assert_eq!(cpu.regs.r[0], 0xEF);
}

#[test]
fn strh_imm() {
    let mut cpu = CortexM0Plus::new();
    let mut bus = Bus::default();
    cpu.regs.r[0] = 0xCAFE;
    cpu.regs.r[1] = 0x2000_0000;
    cpu.execute_one_with_bus(0x8048, &mut bus);
    assert_eq!(bus.read16(0x2000_0002), 0xCAFE);
}

#[test]
fn ldrh_imm() {
    let mut cpu = CortexM0Plus::new();
    let mut bus = Bus::default();
    bus.write16(0x2000_0004, 0xBEEF);
    cpu.regs.r[1] = 0x2000_0000;
    cpu.execute_one_with_bus(0x8888, &mut bus);
    assert_eq!(cpu.regs.r[0], 0x0000_BEEF);
}
