use rp2040_emu::bus::Bus;
use rp2040_emu::cpu::CortexM0Plus;
use rp2040_emu::cpu::decode::is_wide;
use rp2040_emu::fixtures::{fresh_cpu, make_bus_with_vectors, plant_self_loop};

#[test]
fn systick_wins_over_pendsv_when_lower_priority_value() {
    let (mut bus, handlers) = make_bus_with_vectors();
    plant_self_loop(&mut bus, 0x2000_4000);
    let mut cpu = fresh_cpu();
    bus.ppb[0].shpr[10] = 0xC0;
    bus.ppb[0].shpr[11] = 0x40;
    bus.ppb[0].icsr |= (1 << 28) | (1 << 26);
    cpu.step(&mut bus);
    assert_eq!(
        cpu.regs.ipsr(),
        15,
        "SysTick (prio 0x40) must win over PendSV (prio 0xC0)"
    );
    assert_eq!(cpu.regs.pc(), handlers[15]);
    assert_eq!(bus.ppb[0].icsr & (1 << 26), 0, "PENDSTSET cleared");
    assert_ne!(bus.ppb[0].icsr & (1 << 28), 0, "PENDSVSET stays latched");
}

#[test]
fn pendsv_keeps_lead_over_systick_with_worse_priority() {
    let (mut bus, handlers) = make_bus_with_vectors();
    plant_self_loop(&mut bus, 0x2000_4000);
    let mut cpu = fresh_cpu();
    bus.ppb[0].shpr[10] = 0x40;
    bus.ppb[0].shpr[11] = 0xC0;
    bus.ppb[0].icsr |= (1 << 28) | (1 << 26);
    cpu.step(&mut bus);
    assert_eq!(cpu.regs.ipsr(), 14, "PendSV holds the lead");
    assert_eq!(cpu.regs.pc(), handlers[14]);
    assert_eq!(bus.ppb[0].icsr & (1 << 28), 0, "PENDSVSET cleared");
    assert_ne!(bus.ppb[0].icsr & (1 << 26), 0, "PENDSTSET stays latched");
}

#[test]
fn pendsv_outranks_irq_on_equal_priority_tie_break() {
    let (mut bus, handlers) = make_bus_with_vectors();
    plant_self_loop(&mut bus, 0x2000_4000);
    let mut cpu = fresh_cpu();
    bus.ppb[0].shpr[10] = 0x40;
    bus.ppb[0].icsr |= 1 << 28;
    bus.nvics[0].set_priority(0, 0x40);
    bus.nvics[0].set_enabled(0);
    bus.nvics[0].set_pending(0);
    cpu.step(&mut bus);
    assert_eq!(cpu.regs.ipsr(), 14, "tie-break by exc # → PendSV");
    assert_eq!(cpu.regs.pc(), handlers[14]);
    assert!(bus.nvics[0].is_pending(0), "NVIC pending stays latched");
}

#[test]
fn nvic_irq_wins_over_systick_with_lower_priority() {
    let (mut bus, handlers) = make_bus_with_vectors();
    plant_self_loop(&mut bus, 0x2000_4000);
    let mut cpu = fresh_cpu();
    bus.ppb[0].shpr[11] = 0xC0;
    bus.ppb[0].icsr |= 1 << 26;
    bus.nvics[0].set_priority(7, 0x40);
    bus.nvics[0].set_enabled(7);
    bus.nvics[0].set_pending(7);
    cpu.step(&mut bus);
    assert_eq!(
        cpu.regs.ipsr(),
        23,
        "IRQ 7 (prio 0x40) beats SysTick (prio 0xC0)"
    );
    assert_eq!(cpu.regs.pc(), handlers[16].wrapping_add(7 * 32));
    assert!(!bus.nvics[0].is_pending(7));
    assert_ne!(bus.ppb[0].icsr & (1 << 26), 0, "SysTick stays latched");
}

#[test]
fn no_candidates_returns_zero_with_primask_clear() {
    let (mut bus, _handlers) = make_bus_with_vectors();
    plant_self_loop(&mut bus, 0x2000_4000);
    let mut cpu = fresh_cpu();
    cpu.regs.primask = 0;
    bus.ppb[0].icsr = 0;
    let cycles = cpu.step(&mut bus);
    assert_eq!(cpu.regs.ipsr(), 0, "no exception entered");
    assert!(cycles < 16, "no exception cost incurred (cycles={cycles})");
}

#[test]
fn nvic_dispatch_blocked_by_active_handler() {
    let (mut bus, _handlers) = make_bus_with_vectors();
    plant_self_loop(&mut bus, 0x2000_4000);
    let mut cpu = fresh_cpu();
    bus.ppb[0].mark_active(11);
    cpu.regs.xpsr = (cpu.regs.xpsr & !0x1FF) | 11;
    bus.nvics[0].set_priority(3, 0x00);
    bus.nvics[0].set_enabled(3);
    bus.nvics[0].set_pending(3);
    cpu.step(&mut bus);
    assert_eq!(cpu.regs.ipsr(), 11, "active handler blocks new dispatch");
    assert!(bus.nvics[0].is_pending(3), "NVIC pending preserved");
}

#[test]
fn wide_instr_with_hw1_fetch_fault_escalates_to_hardfault() {
    let (mut bus, handlers) = make_bus_with_vectors();
    let mut cpu = fresh_cpu();
    let last = 0x2004_1FFEu32;
    bus.write16(last, 0xF000);
    cpu.regs.set_pc(last);
    bus.clear_bus_fault();
    let _ = cpu.step(&mut bus);
    assert_eq!(
        cpu.regs.ipsr(),
        3,
        "hw1 fetch fault must escalate to HardFault"
    );
    assert_eq!(cpu.regs.pc(), handlers[3]);
}

#[test]
fn populate_skips_writeback_for_noncacheable_pc() {
    let mut cpu = CortexM0Plus::new();
    let mut bus = Bus::default();
    let pc_sio = 0xD000_0000u32;
    let slot = ((pc_sio >> 1) & (rp2040_emu::cpu::decode::DECODE_CACHE_SIZE as u32 - 1)) as usize;
    let initial_tag = cpu.decode_cache[slot].tag_for_slot(slot);
    cpu.regs.set_pc(pc_sio);
    let _ = cpu.decode_execute(&mut bus);
    assert_ne!(
        cpu.decode_cache[slot].tag_for_slot(slot), pc_sio,
        "non-cacheable PC must not populate cache slot"
    );
    assert_eq!(cpu.decode_cache[slot].tag_for_slot(slot), initial_tag);
}

#[test]
fn cache_hit_wide_dispatches_thumb32_path() {
    let mut cpu = CortexM0Plus::new();
    let mut bus = Bus::default();
    let pc = 0x2000_0000u32;
    bus.write16(pc, 0xF000);
    bus.write16(pc + 2, 0xF802);
    cpu.regs.set_pc(pc);
    cpu.decode_execute(&mut bus);
    cpu.regs.set_pc(pc);
    cpu.decode_execute(&mut bus);
    assert_eq!(cpu.regs.lr(), (pc + 4) | 1);
    assert_eq!(cpu.regs.pc(), pc + 8);
}

#[test]
fn cache_miss_on_collision_repopulates() {
    let mut cpu = CortexM0Plus::new();
    let mut bus = Bus::default();
    let pc = 0x2000_0000u32;
    let slot = ((pc >> 1) & (rp2040_emu::cpu::decode::DECODE_CACHE_SIZE as u32 - 1)) as usize;
    cpu.decode_cache[slot].set_tag_for_slot(slot, 0x1234_5678);
    cpu.decode_cache[slot].hw0 = 0xDEAD;
    bus.write16(pc, 0x3001);
    cpu.regs.set_pc(pc);
    cpu.decode_execute(&mut bus);
    assert_eq!(cpu.decode_cache[slot].tag_for_slot(slot), pc);
    assert_eq!(cpu.decode_cache[slot].hw0, 0x3001);
    assert_eq!(cpu.regs.r[0], 1);
}

#[test]
fn is_wide_rejects_m33_only_prefixes() {
    for hw0 in [0xE800u16, 0xE900, 0xEA00, 0xEB00, 0xEC00, 0xED00, 0xEE00, 0xEF00] {
        assert!(!is_wide(hw0), "{hw0:#06x} is M33-only wide");
    }
    for hw0 in [0xF800u16, 0xF900, 0xFA00, 0xFB00, 0xFC00, 0xFD00, 0xFE00, 0xFF00] {
        assert!(!is_wide(hw0), "{hw0:#06x} is M33-only wide");
    }
    for hw0 in [0xF000u16, 0xF100, 0xF200, 0xF300, 0xF400, 0xF500, 0xF600, 0xF700] {
        assert!(is_wide(hw0), "{hw0:#06x} is the M0+ wide prefix");
    }
}

#[test]
fn it_with_every_firstcond_is_undefined() {
    for cond in 0u16..=0xF {
        let mut cpu = CortexM0Plus::new();
        let opcode = 0xBF00 | (cond << 4) | 0x1;
        cpu.execute_one(opcode);
        assert!(
            cpu.has_pending_fault(),
            "IT firstcond={cond:#x} mask=1 must be undefined ({opcode:#06x})",
        );
    }
}

#[test]
fn cbz_cbnz_full_subop_sweep() {
    for high in [0xB1u16, 0xB3, 0xB9, 0xBB] {
        for low in [0x00u16, 0x07, 0x40, 0xFF] {
            let mut cpu = CortexM0Plus::new();
            let opcode = (high << 8) | low;
            cpu.execute_one(opcode);
            assert!(
                cpu.has_pending_fault(),
                "CBZ/CBNZ {opcode:#06x} must be undefined on M0+",
            );
        }
    }
}

#[test]
fn msr_control_clears_spsel_to_msp() {
    let mut cpu = CortexM0Plus::new();
    cpu.regs.msp = 0x2000_0100;
    cpu.regs.psp = 0x2000_0200;
    cpu.regs.control = 0x2;
    cpu.regs.set_sp(0x2000_0200);
    cpu.regs.r[3] = 0x0;
    cpu.execute_one_wide(0xF383, 0x8814);
    assert_eq!(cpu.regs.control, 0x0, "SPSEL cleared");
    assert_eq!(cpu.regs.sp(), 0x2000_0100);
}

#[test]
fn msr_control_ignored_in_handler_mode() {
    let mut cpu = CortexM0Plus::new();
    cpu.regs.msp = 0x2000_0100;
    cpu.regs.psp = 0x2000_0200;
    cpu.regs.set_sp(0x2000_0100);
    cpu.regs.xpsr = (cpu.regs.xpsr & !0x1FF) | 2;
    cpu.regs.control = 0x0;
    cpu.regs.r[3] = 0x2;
    cpu.execute_one_wide(0xF383, 0x8814);
    assert_eq!(cpu.regs.control & 0x2, 0, "SPSEL write ignored in handler");
}

#[test]
fn region_bulk_bit_clears_every_slot() {
    let mut cpu = CortexM0Plus::new();
    cpu.decode_cache[3].set_tag_for_slot(3, 0x0000_0006);
    cpu.decode_cache[7].set_tag_for_slot(7, 0x1000_000E);
    cpu.decode_cache[11].set_tag_for_slot(11, 0x2000_0016);
    cpu.invalidate_decode_cache_regions(
        rp2040_emu::bus::invalidation_regions::BULK
            | rp2040_emu::bus::invalidation_regions::ROM,
    );
    for (slot_index, slot) in cpu.decode_cache.iter().enumerate() {
        assert_eq!(slot.tag_for_slot(slot_index), u32::MAX, "BULK clears every slot");
    }
}

#[test]
fn region_scoped_invalidate_drops_only_matching_region() {
    let mut cpu = CortexM0Plus::new();
    cpu.decode_cache[2].set_tag_for_slot(2, 0x0000_0004);
    cpu.decode_cache[2].hw0 = 0xAAAA;
    cpu.decode_cache[4].set_tag_for_slot(4, 0x1000_0008);
    cpu.decode_cache[4].hw0 = 0xBBBB;
    cpu.decode_cache[6].set_tag_for_slot(6, 0x2000_000C);
    cpu.decode_cache[6].hw0 = 0xCCCC;
    cpu.invalidate_decode_cache_regions(rp2040_emu::bus::invalidation_regions::ROM);
    assert_eq!(cpu.decode_cache[2].tag_for_slot(2), u32::MAX, "ROM slot cleared");
    assert_eq!(cpu.decode_cache[4].tag_for_slot(4), 0x1000_0008, "XIP slot survives");
    assert_eq!(cpu.decode_cache[6].tag_for_slot(6), 0x2000_000C, "SRAM slot survives");
}

#[test]
fn region_combined_mask_clears_listed_regions() {
    let mut cpu = CortexM0Plus::new();
    cpu.decode_cache[2].set_tag_for_slot(2, 0x0000_0004);
    cpu.decode_cache[4].set_tag_for_slot(4, 0x1000_0008);
    cpu.decode_cache[6].set_tag_for_slot(6, 0x2000_000C);
    let regions = rp2040_emu::bus::invalidation_regions::ROM
        | rp2040_emu::bus::invalidation_regions::XIP;
    cpu.invalidate_decode_cache_regions(regions);
    assert_eq!(cpu.decode_cache[2].tag_for_slot(2), u32::MAX);
    assert_eq!(cpu.decode_cache[4].tag_for_slot(4), u32::MAX);
    assert_eq!(cpu.decode_cache[6].tag_for_slot(6), 0x2000_000C);
}

#[test]
fn svc_with_primask_escalates_to_hardfault_via_pending_fault() {
    let (mut bus, handlers) = make_bus_with_vectors();
    let mut cpu = fresh_cpu();
    cpu.regs.primask = 1;
    cpu.pending_fault = Some(rp2040_emu::cpu::Fault::Svc);
    plant_self_loop(&mut bus, 0x2000_4000);
    cpu.step(&mut bus);
    assert_eq!(cpu.regs.ipsr(), 3, "SVC escalated to HardFault");
    assert_eq!(cpu.regs.pc(), handlers[3]);
}

#[test]
fn invalid_epsr_fault_delivers_hardfault() {
    let (mut bus, handlers) = make_bus_with_vectors();
    let mut cpu = fresh_cpu();
    cpu.pending_fault = Some(rp2040_emu::cpu::Fault::InvalidEpsr);
    plant_self_loop(&mut bus, 0x2000_4000);
    cpu.step(&mut bus);
    assert_eq!(cpu.regs.ipsr(), 3);
    assert_eq!(cpu.regs.pc(), handlers[3]);
}

#[test]
fn unaligned_fault_delivers_hardfault() {
    let (mut bus, handlers) = make_bus_with_vectors();
    let mut cpu = fresh_cpu();
    cpu.pending_fault = Some(rp2040_emu::cpu::Fault::Unaligned);
    plant_self_loop(&mut bus, 0x2000_4000);
    cpu.step(&mut bus);
    assert_eq!(cpu.regs.ipsr(), 3);
    assert_eq!(cpu.regs.pc(), handlers[3]);
}

#[test]
fn hardfault_in_hardfault_locks_up_core() {
    let (mut bus, _handlers) = make_bus_with_vectors();
    let mut cpu = fresh_cpu();
    cpu.regs.xpsr = (cpu.regs.xpsr & !0x1FF) | 3;
    let cycles = cpu.test_enter_exception(3, &mut bus);
    assert!(cpu.is_halted(), "HardFault-in-HardFault must lock up");
    assert_eq!(cycles, 0, "lockup returns 0 cycles");
}

#[test]
fn hardfault_with_t0_vector_locks_up() {
    let (mut bus, _handlers) = make_bus_with_vectors();
    let mut cpu = fresh_cpu();
    bus.write32(0x2000_0000 + 3 * 4, 0x2000_2000);
    let cycles = cpu.test_enter_exception(3, &mut bus);
    assert!(cpu.is_halted(), "HardFault with bad vector locks up");
    assert_eq!(cycles, 16, "lockup still bills 16 entry cycles");
}
