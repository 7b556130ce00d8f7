use rp2040_emu::cpu::CortexM0Plus;

#[test]
fn non_wide_thumb16_dispatches_normally() {
    let mut cpu = CortexM0Plus::new();
    let cycles = cpu.execute_one(0x2042);
    assert!(cycles >= 1);
    assert_eq!(cpu.regs.r[0], 0x42);
}

#[test]
fn decode_execute_flags_undefined_for_11101_prefix() {
    let mut cpu = CortexM0Plus::new();
    cpu.execute_one(0xE800);
    assert!(cpu.has_pending_fault());
}
