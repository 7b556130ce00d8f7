use rp2040_emu::bus::Bus;
use rp2040_emu::cpu::CortexM0Plus;

#[test]
fn push_single_low_register() {
    let mut cpu = CortexM0Plus::new();
    let mut bus = Bus::default();
    cpu.regs.r[0] = 0xDEAD_BEEF;
    cpu.regs.r[13] = 0x2000_1000;
    cpu.execute_one_with_bus(0xB401, &mut bus);
    assert_eq!(cpu.regs.r[13], 0x2000_0FFC);
    assert_eq!(bus.read32(0x2000_0FFC), 0xDEAD_BEEF);
}

#[test]
fn push_multiple_low_registers_and_lr() {
    let mut cpu = CortexM0Plus::new();
    let mut bus = Bus::default();
    cpu.regs.r[0] = 0xAA;
    cpu.regs.r[1] = 0xBB;
    cpu.regs.set_lr(0x1234_5678);
    cpu.regs.r[13] = 0x2000_1000;
    cpu.execute_one_with_bus(0xB503, &mut bus);
    assert_eq!(cpu.regs.r[13], 0x2000_0FF4);
    assert_eq!(bus.read32(0x2000_0FF4), 0xAA);
    assert_eq!(bus.read32(0x2000_0FF8), 0xBB);
    assert_eq!(bus.read32(0x2000_0FFC), 0x1234_5678);
}

#[test]
fn pop_single_low_register() {
    let mut cpu = CortexM0Plus::new();
    let mut bus = Bus::default();
    bus.write32(0x2000_0FFC, 0xCAFE);
    cpu.regs.r[13] = 0x2000_0FFC;
    cpu.execute_one_with_bus(0xBC01, &mut bus);
    assert_eq!(cpu.regs.r[0], 0xCAFE);
    assert_eq!(cpu.regs.r[13], 0x2000_1000);
}

#[test]
fn pop_to_pc() {
    let mut cpu = CortexM0Plus::new();
    let mut bus = Bus::default();
    bus.write32(0x2000_0FFC, 0x2000_2001);
    cpu.regs.r[13] = 0x2000_0FFC;
    cpu.execute_one_with_bus(0xBD00, &mut bus);
    assert_eq!(cpu.regs.r[15], 0x2000_2000);
    assert_eq!(cpu.regs.r[13], 0x2000_1000);
}
