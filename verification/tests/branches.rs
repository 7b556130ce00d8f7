use rp2040_emu::cpu::CortexM0Plus;

#[test]
fn b_unconditional_positive_offset() {
    let mut cpu = CortexM0Plus::new();
    cpu.regs.set_pc(0x1000);
    cpu.execute_one(0xE002);
    assert_eq!(cpu.regs.r[15], 0x1008);
}

#[test]
fn b_unconditional_negative_offset() {
    let mut cpu = CortexM0Plus::new();
    cpu.regs.set_pc(0x1000);
    cpu.execute_one(0xE7FE);
    assert_eq!(cpu.regs.r[15], 0x1000);
}

#[test]
fn b_cond_taken() {
    let mut cpu = CortexM0Plus::new();
    cpu.regs.set_pc(0x1000);
    cpu.regs.set_flag_z(true);
    cpu.execute_one(0xD001);
    assert_eq!(cpu.regs.r[15], 0x1006);
}

#[test]
fn b_cond_not_taken() {
    let mut cpu = CortexM0Plus::new();
    cpu.regs.set_pc(0x1000);
    cpu.regs.set_flag_z(false);
    cpu.execute_one(0xD001);
    assert_eq!(cpu.regs.r[15], 0x1002);
}

#[test]
fn b_cond_backward_branch_ne_taken() {
    let mut cpu = CortexM0Plus::new();
    cpu.regs.set_pc(0x1000);
    cpu.execute_one(0xD1FE);
    assert_eq!(cpu.regs.r[15], 0x1000);
}

#[test]
fn svc_sets_pending_fault_placeholder() {
    let mut cpu = CortexM0Plus::new();
    cpu.execute_one(0xDF00);
    assert!(cpu.has_pending_fault());
}
