use rp2040_emu::fixtures::tree;
use rp2040_emu::peripherals::pwm::{CSR_EN, EN, INTR, PWM_SLICE_COUNT, PwmRegs, SLICE_STRIDE};

const IRQ: u32 = 4;

#[test]
fn decode_slice_offset_returns_none_at_boundary() {
    let mut p = PwmRegs::new(IRQ);
    let boundary = PWM_SLICE_COUNT as u32 * SLICE_STRIDE;
    assert_eq!(boundary, EN);
    assert_eq!(p.read32(boundary), 0, "EN at boundary returns 0");
    assert_eq!(p.read32(boundary + 0x20), 0);
}

#[test]
fn pwm_en_view_mixed_slices_enabled() {
    let mut p = PwmRegs::new(IRQ);
    let mut irqs = 0u32;
    p.write32(EN, 0b0010_1001, 0, &mut irqs);
    assert_eq!(p.read32(EN) & 0xFF, 0b0010_1001);
}

#[test]
fn tick_zero_cycles_with_clean_state_no_irq() {
    let mut p = PwmRegs::new(IRQ);
    let mut irqs = 0u32;
    p.tick(0, &tree(), &mut irqs);
    assert_eq!(irqs & (1u32 << IRQ), 0);
}

#[test]
fn mixed_enabled_disabled_slices_only_enabled_advance() {
    let mut p = PwmRegs::new(IRQ);
    let mut irqs = 0u32;
    let base2 = 2 * SLICE_STRIDE;
    let base7 = 7 * SLICE_STRIDE;
    p.write32(base2 + 0x10, 50, 0, &mut irqs);
    p.write32(base7 + 0x10, 50, 0, &mut irqs);
    p.write32(base2, CSR_EN, 0, &mut irqs);
    p.write32(base7, CSR_EN, 0, &mut irqs);
    p.tick(60, &tree(), &mut irqs);
    assert_ne!(p.read32(INTR) & (1 << 2), 0, "slice 2 wrap latched");
    assert_eq!(p.read32(INTR) & (1 << 5), 0, "slice 5 disabled");
    assert_ne!(p.read32(INTR) & (1 << 7), 0, "slice 7 wrap latched");
}

#[test]
fn tick_below_first_wrap_advances_ctr_no_latch() {
    let mut p = PwmRegs::new(IRQ);
    let mut irqs = 0u32;
    p.write32(0x10, 100, 0, &mut irqs);
    p.write32(0x00, CSR_EN, 0, &mut irqs);
    p.tick(50, &tree(), &mut irqs);
    assert_eq!(p.read32(0x08), 50, "CTR advanced 50");
    assert_eq!(p.read32(INTR) & 1, 0, "no wrap latch");
}
