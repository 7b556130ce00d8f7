use rp2040_emu::cpu::CortexM0Plus;

#[test]
fn rev_swaps_bytes() {
    let mut cpu = CortexM0Plus::new();
    cpu.regs.r[1] = 0x1122_3344;
    cpu.execute_one(0xBA08);
    assert_eq!(cpu.regs.r[0], 0x4433_2211);
}

#[test]
fn rev16_swaps_halfwords_internally() {
    let mut cpu = CortexM0Plus::new();
    cpu.regs.r[1] = 0x1122_3344;
    cpu.execute_one(0xBA48);
    assert_eq!(cpu.regs.r[0], 0x2211_4433);
}

#[test]
fn revsh_sign_extends_swapped_low_halfword() {
    let mut cpu = CortexM0Plus::new();
    cpu.regs.r[1] = 0x1122_80FF;
    cpu.execute_one(0xBAC8);
    assert_eq!(cpu.regs.r[0], 0xFFFF_FF80);
}

#[test]
fn rev_subop_0b10_is_undefined_on_m0plus() {
    let mut cpu = CortexM0Plus::new();
    cpu.regs.r[0] = 0xAABB_CCDD;
    cpu.regs.r[1] = 0x1234_5678;
    cpu.execute_one(0xBA88);
    assert!(cpu.has_pending_fault());
    assert_eq!(cpu.regs.r[0], 0xAABB_CCDD);
}
