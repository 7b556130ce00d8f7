use rp2040_emu::bus::Bus;
use rp2040_emu::cpu::CortexM0Plus;

#[test]
fn bx_with_t0_target_raises_fault() {
    let mut cpu = CortexM0Plus::new();
    let mut bus = Bus::default();
    cpu.regs.r[1] = 0x2000;
    cpu.execute_one_with_bus(0x4708, &mut bus);
    assert!(cpu.has_pending_fault());
}

#[test]
fn blx_with_t0_target_raises_fault() {
    let mut cpu = CortexM0Plus::new();
    let mut bus = Bus::default();
    cpu.regs.r[2] = 0x4000;
    cpu.execute_one_with_bus(0x4790, &mut bus);
    assert!(cpu.has_pending_fault());
}

#[test]
fn pop_pc_with_t0_raises_fault() {
    let mut cpu = CortexM0Plus::new();
    let mut bus = Bus::default();
    bus.write32(0x2000_0000, 0x1000);
    cpu.regs.set_sp(0x2000_0000);
    cpu.execute_one_with_bus(0xBD00, &mut bus);
    assert!(cpu.has_pending_fault());
}

#[test]
fn mov_pc_with_even_target_branches() {
    let mut cpu = CortexM0Plus::new();
    let mut bus = Bus::default();
    cpu.regs.r[0] = 0x2000_1000;
    cpu.execute_one_with_bus(0x4687, &mut bus);
    assert!(!cpu.has_pending_fault());
    assert_eq!(cpu.regs.pc(), 0x2000_1000);
}

#[test]
fn add_pc_with_even_target_branches() {
    let mut cpu = CortexM0Plus::new();
    let mut bus = Bus::default();
    let base: u32 = 0x2000_2000;
    cpu.regs.set_pc(base);
    cpu.regs.r[0] = 0x1000;
    cpu.execute_one_with_bus(0x4487, &mut bus);
    assert!(!cpu.has_pending_fault());
    assert_eq!(cpu.regs.pc(), base + 0x1004);
}
