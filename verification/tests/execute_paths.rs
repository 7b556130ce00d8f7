use rp2040_emu::bus::Bus;
use rp2040_emu::cpu::CortexM0Plus;
use rp2040_emu::fixtures::make_test_bus_with_vector_table;

#[test]
fn lsls_reg_shift_in_middle_range() {
    let mut cpu = CortexM0Plus::new();
    cpu.regs.r[0] = 0x8000_0001;
    cpu.regs.r[1] = 4;
    cpu.execute_one(0x4088);
    assert_eq!(cpu.regs.r[0], 0x0000_0010);
    assert!(!cpu.flag_c());
}

#[test]
fn lsls_reg_shift_exactly_32() {
    let mut cpu = CortexM0Plus::new();
    cpu.regs.r[0] = 0x0000_0001;
    cpu.regs.r[1] = 32;
    cpu.execute_one(0x4088);
    assert_eq!(cpu.regs.r[0], 0);
    assert!(cpu.flag_c(), "bit 0 of a is now the carry-out");
    assert!(cpu.flag_z());
}

#[test]
fn lsrs_reg_shift_by_zero_preserves_carry() {
    let mut cpu = CortexM0Plus::new();
    cpu.regs.r[0] = 0x1234;
    cpu.regs.r[1] = 0;
    cpu.regs.set_flag_c(true);
    cpu.execute_one(0x40C8);
    assert_eq!(cpu.regs.r[0], 0x1234);
    assert!(cpu.flag_c());
}

#[test]
fn lsrs_reg_shift_in_middle_range() {
    let mut cpu = CortexM0Plus::new();
    cpu.regs.r[0] = 0x0000_0010;
    cpu.regs.r[1] = 2;
    cpu.execute_one(0x40C8);
    assert_eq!(cpu.regs.r[0], 0x0000_0004);
}

#[test]
fn lsrs_reg_shift_greater_than_32_clears() {
    let mut cpu = CortexM0Plus::new();
    cpu.regs.r[0] = 0xFFFF_FFFF;
    cpu.regs.r[1] = 40;
    cpu.execute_one(0x40C8);
    assert_eq!(cpu.regs.r[0], 0);
    assert!(!cpu.flag_c());
}

#[test]
fn asrs_reg_shift_by_zero_preserves_carry() {
    let mut cpu = CortexM0Plus::new();
    cpu.regs.r[0] = 0x8000_0000;
    cpu.regs.r[1] = 0;
    cpu.regs.set_flag_c(true);
    cpu.execute_one(0x4108);
    assert_eq!(cpu.regs.r[0], 0x8000_0000);
    assert!(cpu.flag_c());
}

#[test]
fn asrs_reg_shift_in_middle_range() {
    let mut cpu = CortexM0Plus::new();
    cpu.regs.r[0] = 0xFFFF_FFFE;
    cpu.regs.r[1] = 1;
    cpu.execute_one(0x4108);
    assert_eq!(cpu.regs.r[0], 0xFFFF_FFFF);
}

#[test]
fn rors_reg_shift_by_zero_preserves_carry() {
    let mut cpu = CortexM0Plus::new();
    cpu.regs.r[0] = 0x1234_5678;
    cpu.regs.r[1] = 0;
    cpu.regs.set_flag_c(true);
    cpu.execute_one(0x41C8);
    assert_eq!(cpu.regs.r[0], 0x1234_5678);
    assert!(cpu.flag_c());
}

#[test]
fn rors_reg_shift_multiple_of_32_leaves_a() {
    let mut cpu = CortexM0Plus::new();
    cpu.regs.r[0] = 0x8000_0001;
    cpu.regs.r[1] = 32;
    cpu.execute_one(0x41C8);
    assert_eq!(cpu.regs.r[0], 0x8000_0001);
    assert!(cpu.flag_c(), "MSB of a becomes carry-out");
}

#[test]
fn add_high_reg_with_rm_is_r15_reads_pc() {
    let mut cpu = CortexM0Plus::new();
    cpu.regs.set_pc(0x1000);
    cpu.regs.r[0] = 0x10;
    cpu.execute_one(0x4478);
    assert_eq!(cpu.regs.r[0], 0x1014);
}

#[test]
fn cmp_high_reg_with_n_is_r15_reads_pc() {
    let mut cpu = CortexM0Plus::new();
    cpu.regs.set_pc(0x1000);
    cpu.regs.r[0] = 0x1004;
    cpu.execute_one(0x4587);
    assert!(cpu.flag_z(), "CMP PC, R0 with matching values sets Z");
}

#[test]
fn cmp_high_reg_with_rm_is_r15_reads_pc() {
    let mut cpu = CortexM0Plus::new();
    cpu.regs.set_pc(0x2000);
    cpu.regs.r[0] = 0x2004;
    cpu.execute_one(0x4578);
    assert!(cpu.flag_z());
}

#[test]
fn mov_high_reg_with_rm_is_r15_reads_pc() {
    let mut cpu = CortexM0Plus::new();
    cpu.regs.set_pc(0x2000);
    cpu.execute_one(0x4678);
    assert_eq!(cpu.regs.r[0], 0x2004);
}

#[test]
fn bx_with_rm_is_r15_reads_pc() {
    let mut cpu = CortexM0Plus::new();
    let mut bus = Bus::default();
    cpu.regs.set_pc(0x1000);
    cpu.execute_one_with_bus(0x4778, &mut bus);
    assert!(cpu.has_pending_fault());
}

#[test]
fn bx_in_handler_mode_to_non_exc_return_branches() {
    let mut cpu = CortexM0Plus::new();
    let mut bus = Bus::default();
    cpu.regs.xpsr |= 11;
    cpu.regs.r[1] = 0x2000_1001;
    cpu.execute_one_with_bus(0x4708, &mut bus);
    assert!(!cpu.has_pending_fault());
    assert_eq!(cpu.regs.pc(), 0x2000_1000);
}

#[test]
fn str_reg_unaligned_raises_fault() {
    let mut cpu = CortexM0Plus::new();
    let mut bus = Bus::default();
    cpu.regs.r[0] = 0xDEAD_BEEF;
    cpu.regs.r[1] = 0x2000_0000;
    cpu.regs.r[2] = 1;
    cpu.execute_one_with_bus(0x5088, &mut bus);
    assert!(cpu.has_pending_fault());
}

#[test]
fn strh_reg_unaligned_raises_fault() {
    let mut cpu = CortexM0Plus::new();
    let mut bus = Bus::default();
    cpu.regs.r[0] = 0xCAFE;
    cpu.regs.r[1] = 0x2000_0000;
    cpu.regs.r[2] = 1;
    cpu.execute_one_with_bus(0x5288, &mut bus);
    assert!(cpu.has_pending_fault());
}

#[test]
fn ldr_reg_unaligned_raises_fault() {
    let mut cpu = CortexM0Plus::new();
    let mut bus = Bus::default();
    cpu.regs.r[1] = 0x2000_0000;
    cpu.regs.r[2] = 3;
    cpu.execute_one_with_bus(0x5888, &mut bus);
    assert!(cpu.has_pending_fault());
}

#[test]
fn ldrh_reg_unaligned_raises_fault() {
    let mut cpu = CortexM0Plus::new();
    let mut bus = Bus::default();
    cpu.regs.r[1] = 0x2000_0000;
    cpu.regs.r[2] = 1;
    cpu.execute_one_with_bus(0x5A88, &mut bus);
    assert!(cpu.has_pending_fault());
}

#[test]
fn ldrsh_reg_unaligned_raises_fault() {
    let mut cpu = CortexM0Plus::new();
    let mut bus = Bus::default();
    cpu.regs.r[1] = 0x2000_0000;
    cpu.regs.r[2] = 1;
    cpu.execute_one_with_bus(0x5E88, &mut bus);
    assert!(cpu.has_pending_fault());
}

#[test]
fn strh_imm_unaligned_raises_fault() {
    let mut cpu = CortexM0Plus::new();
    let mut bus = Bus::default();
    cpu.regs.r[0] = 0xCAFE;
    cpu.regs.r[1] = 0x2000_0001;
    cpu.execute_one_with_bus(0x8008, &mut bus);
    assert!(cpu.has_pending_fault());
}

#[test]
fn str_sp_unaligned_raises_fault() {
    let mut cpu = CortexM0Plus::new();
    let mut bus = Bus::default();
    cpu.regs.r[0] = 0xDEAD_BEEF;
    cpu.regs.r[13] = 0x2000_0002;
    cpu.execute_one_with_bus(0x9000, &mut bus);
    assert!(cpu.has_pending_fault());
}

#[test]
fn ldr_sp_unaligned_raises_fault() {
    let mut cpu = CortexM0Plus::new();
    let mut bus = Bus::default();
    cpu.regs.r[13] = 0x2000_0002;
    cpu.execute_one_with_bus(0x9800, &mut bus);
    assert!(cpu.has_pending_fault());
}

#[test]
fn push_misaligned_base_raises_fault() {
    let mut cpu = CortexM0Plus::new();
    let mut bus = Bus::default();
    cpu.regs.r[0] = 0xDEAD_BEEF;
    cpu.regs.r[13] = 0x2000_1001;
    cpu.execute_one_with_bus(0xB401, &mut bus);
    assert!(cpu.has_pending_fault());
}

#[test]
fn pop_misaligned_sp_raises_fault() {
    let mut cpu = CortexM0Plus::new();
    let mut bus = Bus::default();
    cpu.regs.r[13] = 0x2000_0001;
    cpu.execute_one_with_bus(0xBC01, &mut bus);
    assert!(cpu.has_pending_fault());
}

#[test]
fn pop_pc_in_handler_mode_with_exc_return_unwinds() {
    let (mut bus, _) = make_test_bus_with_vector_table();
    let mut cpu = CortexM0Plus::new();
    cpu.regs.msp = 0x2000_8000;
    cpu.regs.set_sp(0x2000_8000);
    cpu.regs.set_pc(0x1000);
    cpu.test_enter_exception(11, &mut bus);
    let sp_before = cpu.regs.sp();
    let cell = sp_before.wrapping_sub(4);
    bus.write32(cell, 0xFFFF_FFF9);
    cpu.regs.set_sp(cell);
    cpu.execute_one_with_bus(0xBD00, &mut bus);
    assert_eq!(cpu.regs.ipsr(), 0);
}

#[test]
fn pop_pc_in_handler_mode_to_regular_address_branches() {
    let (mut bus, _) = make_test_bus_with_vector_table();
    let mut cpu = CortexM0Plus::new();
    cpu.regs.msp = 0x2000_8000;
    cpu.regs.set_sp(0x2000_8000);
    cpu.regs.set_pc(0x1000);
    cpu.test_enter_exception(11, &mut bus);
    let sp_before = cpu.regs.sp();
    let cell = sp_before.wrapping_sub(4);
    bus.write32(cell, 0x2000_2001);
    cpu.regs.set_sp(cell);
    cpu.execute_one_with_bus(0xBD00, &mut bus);
    assert_eq!(cpu.regs.ipsr(), 11);
    assert_eq!(cpu.regs.pc(), 0x2000_2000);
    assert!(!cpu.has_pending_fault());
}

#[test]
fn stm_unaligned_base_raises_fault() {
    let mut cpu = CortexM0Plus::new();
    let mut bus = Bus::default();
    cpu.regs.r[0] = 0x1234;
    cpu.regs.r[4] = 0x2000_0002;
    cpu.execute_one_with_bus(0xC401, &mut bus);
    assert!(cpu.has_pending_fault());
}

#[test]
fn execute_wide_barrier_prefix_with_wrong_hw1_is_undefined() {
    let mut cpu = CortexM0Plus::new();
    cpu.execute_one_wide(0xF3BF, 0x8000);
    assert!(cpu.has_pending_fault());
}

#[test]
fn execute_wide_bl_not_taken_falls_through_to_misc_control() {
    let mut cpu = CortexM0Plus::new();
    cpu.execute_one_wide(0xF000, 0x9000);
    assert!(cpu.has_pending_fault());
}

#[test]
fn msr_with_bit4_set_in_hw0_is_accepted() {
    let mut cpu = CortexM0Plus::new();
    cpu.regs.r[0] = 0xFFFF_FFFF;
    cpu.execute_one_wide(0xF390, 0x8810);
    assert_eq!(cpu.regs.primask, 1);
}

#[test]
fn msr_with_bad_hw1_mask_is_undefined() {
    let mut cpu = CortexM0Plus::new();
    cpu.execute_one_wide(0xF380, 0x8700);
    assert!(cpu.has_pending_fault());
}

#[test]
fn mrs_op_field_mismatch_is_undefined() {
    let mut cpu = CortexM0Plus::new();
    cpu.execute_one_wide(0xF350, 0x8000);
    assert!(cpu.has_pending_fault());
}

#[test]
fn mrs_with_bit4_set_in_hw0_is_accepted() {
    let mut cpu = CortexM0Plus::new();
    cpu.regs.primask = 1;
    cpu.execute_one_wide(0xF3FF, 0x8010);
    assert_eq!(cpu.regs.r[0], 1);
}

#[test]
fn mrs_low_nibble_not_f_is_undefined() {
    let mut cpu = CortexM0Plus::new();
    cpu.execute_one_wide(0xF3EE, 0x8000);
    assert!(cpu.has_pending_fault());
}

#[test]
fn mrs_hw1_top_nibble_not_8_is_undefined() {
    let mut cpu = CortexM0Plus::new();
    cpu.execute_one_wide(0xF3EF, 0xA000);
    assert!(cpu.has_pending_fault());
}

#[test]
fn msr_msp_updates_banked_stack_pointer() {
    let mut cpu = CortexM0Plus::new();
    cpu.regs.r[0] = 0x2000_1000;
    cpu.regs.r[13] = 0x2000_2000;
    cpu.execute_one_wide(0xF380, 0x8808);
    assert_eq!(cpu.regs.msp, 0x2000_1000);
    assert_eq!(cpu.regs.r[13], 0x2000_1000, "active SP tracked MSP write");
}

#[test]
fn msr_msp_with_psp_active_does_not_touch_r13() {
    let mut cpu = CortexM0Plus::new();
    cpu.regs.control = 0x2;
    cpu.regs.r[0] = 0x2000_1000;
    cpu.regs.r[13] = 0x2000_4000;
    cpu.regs.psp = 0x2000_4000;
    cpu.execute_one_wide(0xF380, 0x8808);
    assert_eq!(cpu.regs.msp, 0x2000_1000);
    assert_eq!(cpu.regs.r[13], 0x2000_4000, "PSP-active r[13] untouched");
}

#[test]
fn msr_psp_with_psp_active_updates_r13() {
    let mut cpu = CortexM0Plus::new();
    cpu.regs.control = 0x2;
    cpu.regs.r[0] = 0x2000_5000;
    cpu.regs.r[13] = 0x2000_4000;
    cpu.regs.psp = 0x2000_4000;
    cpu.execute_one_wide(0xF380, 0x8809);
    assert_eq!(cpu.regs.psp, 0x2000_5000);
    assert_eq!(cpu.regs.r[13], 0x2000_5000);
}

#[test]
fn msr_psp_with_msp_active_does_not_touch_r13() {
    let mut cpu = CortexM0Plus::new();
    cpu.regs.r[0] = 0x2000_5000;
    cpu.regs.r[13] = 0x2000_2000;
    cpu.execute_one_wide(0xF380, 0x8809);
    assert_eq!(cpu.regs.psp, 0x2000_5000);
    assert_eq!(cpu.regs.r[13], 0x2000_2000, "MSP-active r[13] untouched");
}

#[test]
fn msr_control_in_handler_mode_ignores_spsel() {
    let mut cpu = CortexM0Plus::new();
    cpu.regs.xpsr |= 11;
    cpu.regs.control = 0x0;
    cpu.regs.r[0] = 0x3;
    cpu.execute_one_wide(0xF380, 0x8814);
    assert_eq!(cpu.regs.control & 0x2, 0x0, "handler mode: SPSEL frozen");
    assert_eq!(cpu.regs.control & 0x1, 0x1, "nPRIV updated");
}
