use rp2040_emu::bus::Bus;
use rp2040_emu::cpu::CortexM0Plus;

#[test]
fn ldr_word_unaligned_raises_fault() {
    let mut cpu = CortexM0Plus::new();
    let mut bus = Bus::default();
    cpu.regs.r[0] = 0x2000_0001;
    cpu.execute_one_with_bus(0x6801, &mut bus);
    assert!(cpu.has_pending_fault());
}

#[test]
fn str_word_unaligned_raises_fault() {
    let mut cpu = CortexM0Plus::new();
    let mut bus = Bus::default();
    cpu.regs.r[0] = 0x2000_0002;
    cpu.regs.r[1] = 0xDEAD_BEEF;
    cpu.execute_one_with_bus(0x6001, &mut bus);
    assert!(cpu.has_pending_fault());
}

#[test]
fn ldrh_unaligned_raises_fault() {
    let mut cpu = CortexM0Plus::new();
    let mut bus = Bus::default();
    cpu.regs.r[0] = 0x2000_0001;
    cpu.execute_one_with_bus(0x8801, &mut bus);
    assert!(cpu.has_pending_fault());
}

#[test]
fn ldm_unaligned_base_raises_fault() {
    let mut cpu = CortexM0Plus::new();
    let mut bus = Bus::default();
    cpu.regs.r[0] = 0x2000_0001;
    cpu.execute_one_with_bus(0xC806, &mut bus);
    assert!(cpu.has_pending_fault());
}

#[test]
fn ldrb_byte_any_alignment_ok() {
    let mut cpu = CortexM0Plus::new();
    let mut bus = Bus::default();
    bus.write8(0x2000_0003, 0x42);
    cpu.regs.r[0] = 0x2000_0003;
    cpu.execute_one_with_bus(0x7801, &mut bus);
    assert!(!cpu.has_pending_fault());
    assert_eq!(cpu.regs.r[1], 0x42);
}
