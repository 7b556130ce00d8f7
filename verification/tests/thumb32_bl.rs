use rp2040_emu::cpu::CortexM0Plus;

#[test]
fn bl_sets_lr_to_next_instr_and_branches() {
    let mut cpu = CortexM0Plus::new();
    cpu.regs.set_pc(0x1000);
    let cycles = cpu.execute_one_wide(0xF000, 0xF802);
    assert_eq!(cpu.regs.lr(), 0x1004 | 1, "LR = return addr with T bit");
    assert_eq!(cpu.regs.pc(), 0x1008, "PC = target (T bit cleared)");
    assert_eq!(cycles, 4);
}

#[test]
fn bl_negative_offset() {
    let mut cpu = CortexM0Plus::new();
    cpu.regs.set_pc(0x2000);
    cpu.execute_one_wide(0xF7FF, 0xFFFF);
    assert_eq!(cpu.regs.pc(), 0x2002);
    assert_eq!(cpu.regs.lr(), 0x2004 | 1);
}
