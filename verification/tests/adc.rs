use rp2040_emu::fixtures::tree;
use rp2040_emu::peripherals::adc::{AdcRegs, CS, CS_EN, CS_START_MANY, CS_START_ONCE, FCS, FCS_DREQ_EN, FCS_EN, FCS_OVER, FCS_SHIFT, FCS_UNDER, FIFO, INTE, INTF, INTR_FIFO};

const IRQ: u32 = 22;

#[test]
fn dreq_false_when_fcs_disabled_or_no_dreq_en() {
    let mut a = AdcRegs::new(IRQ);
    let mut irqs = 0;
    assert!(!a.dreq(), "FCS disabled → no dreq");
    a.write32(FCS, FCS_EN, 0, &mut irqs);
    assert!(!a.dreq(), "DREQ_EN clear → no dreq");
}

#[test]
fn dreq_true_when_thresh_met() {
    let mut a = AdcRegs::new(IRQ);
    let mut irqs = 0;
    a.write32(FCS, FCS_EN | FCS_DREQ_EN, 0, &mut irqs);
    a.write32(CS, CS_EN | CS_START_ONCE | (3 << 12), 0, &mut irqs);
    a.tick(400, &tree(), &mut irqs);
    assert!(a.dreq(), "DREQ should assert once FIFO has ≥1 sample");
}

#[test]
fn fifo_overrun_latches_over() {
    let mut a = AdcRegs::new(IRQ);
    let mut irqs = 0;
    a.write32(FCS, FCS_EN, 0, &mut irqs);
    a.write32(CS, CS_EN | CS_START_MANY | (3 << 12), 0, &mut irqs);
    a.tick(4_000, &tree(), &mut irqs);
    let fcs = a.read32(FCS);
    assert_ne!(fcs & FCS_OVER, 0, "FIFO overrun latches OVER bit");
}

#[test]
fn shift_mode_right_shifts_sample_by_four() {
    let mut a = AdcRegs::new(IRQ);
    let mut irqs = 0;
    a.write32(FCS, FCS_EN | FCS_SHIFT, 0, &mut irqs);
    a.write32(CS, CS_EN | CS_START_ONCE | (3 << 12), 0, &mut irqs);
    a.tick(400, &tree(), &mut irqs);
    let sample = a.read32(FIFO);
    assert!(
        sample < 0x100,
        "SHIFT mode clamps to 8 bits: got {:#x}",
        sample
    );
}

#[test]
fn cs_write_with_no_en_change_is_stable() {
    let mut a = AdcRegs::new(IRQ);
    let mut irqs = 0;
    a.write32(CS, 0, 0, &mut irqs);
    a.write32(CS, 0, 0, &mut irqs);
}

#[test]
fn fcs_under_over_w1c_via_alias_0_and_2() {
    let mut a = AdcRegs::new(IRQ);
    let mut irqs = 0;
    let _ = a.read32(FIFO);
    assert_ne!(a.read32(FCS) & FCS_UNDER, 0);
    a.write32(FCS, FCS_UNDER, 0, &mut irqs);
    assert_eq!(a.read32(FCS) & FCS_UNDER, 0);
    let _ = a.read32(FIFO);
    assert_ne!(a.read32(FCS) & FCS_UNDER, 0);
    a.write32(FCS, FCS_UNDER, 2, &mut irqs);
    assert_eq!(a.read32(FCS) & FCS_UNDER, 0);
    let _ = a.read32(FIFO);
    a.write32(FCS, FCS_UNDER, 1, &mut irqs);
}

#[test]
fn intr_write_is_readonly() {
    let mut a = AdcRegs::new(IRQ);
    let mut irqs = 0;
    a.write32(FCS, FCS_EN | (1 << 24), 0, &mut irqs);
    a.write32(CS, CS_EN | CS_START_ONCE | (3 << 12), 0, &mut irqs);
    a.tick(400, &tree(), &mut irqs);
    let latched = a.read32(0x14);
    assert_ne!(latched & INTR_FIFO, 0);
    a.write32(0x14, 0xFFFF_FFFF, 0, &mut irqs);
    assert_ne!(a.read32(0x14) & INTR_FIFO, 0);
}

#[test]
fn inte_intf_roundtrip() {
    let mut a = AdcRegs::new(IRQ);
    let mut irqs = 0;
    a.write32(INTE, INTR_FIFO, 0, &mut irqs);
    assert_eq!(a.read32(INTE), INTR_FIFO);
    a.write32(INTF, INTR_FIFO, 0, &mut irqs);
    assert_eq!(a.read32(INTF), INTR_FIFO);
    a.write32(0x20, 0xFFFF_FFFF, 0, &mut irqs);
}

#[test]
fn tick_idle_is_noop() {
    let mut a = AdcRegs::new(IRQ);
    let mut irqs = 0;
    a.tick(1000, &tree(), &mut irqs);
}

#[test]
fn tick_zero_cycles_is_noop() {
    let mut a = AdcRegs::new(IRQ);
    let mut irqs = 0;
    a.write32(CS, CS_EN | CS_START_MANY, 0, &mut irqs);
    a.tick(0, &tree(), &mut irqs);
}

#[test]
fn adc_read16_default_and_fifo() {
    let mut a = AdcRegs::new(IRQ);
    let _ = a.read16(FIFO);
    let _ = a.read16(CS);
    assert_eq!(a.read32(0xFFF), 0);
}

#[test]
fn adc_default_impl() {
    let _a: AdcRegs = Default::default();
}

#[test]
fn adc_write_readonly_arms() {
    let mut a = AdcRegs::new(IRQ);
    let mut irqs = 0;
    a.write32(0x04, 0xFFFF, 0, &mut irqs);
    a.write32(FIFO, 0xFFFF, 0, &mut irqs);
    a.write32(0x20, 0xFFFF, 0, &mut irqs);
    a.write32(0xFFF, 0xFFFF, 0, &mut irqs);
}

#[test]
fn tick_start_many_re_arms() {
    let mut a = AdcRegs::new(IRQ);
    let mut irqs = 0;
    a.write32(FCS, FCS_EN | (1 << 24), 0, &mut irqs);
    a.write32(INTE, INTR_FIFO, 0, &mut irqs);
    a.write32(CS, CS_EN | CS_START_MANY | (3 << 12), 0, &mut irqs);
    a.tick(5_000, &tree(), &mut irqs);
    assert!(a.fifo_len() >= 1);
}
