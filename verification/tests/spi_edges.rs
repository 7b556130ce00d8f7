use rp2040_emu::fixtures::tree;
use rp2040_emu::peripherals::spi::{SSPCPSR, SSPCR0, SSPCR1, SSPDR, SSPIMSC, SSPRIS, SSPSR, SSP_INT_RX, SpiRegs};

const IRQ: u32 = 18;

#[test]
fn is_idle_false_with_only_ris_latched() {
    let mut s = SpiRegs::new(IRQ);
    let mut irqs = 0u32;
    s.write32(SSPCR0, 0x07, 0, &mut irqs);
    s.write32(SSPCR1, 0x02 | 0x01, 0, &mut irqs);
    for _ in 0..10u32 {
        s.write32(SSPDR, 0xAA, 0, &mut irqs);
    }
    for _ in 0..8 {
        let _ = s.read32(SSPDR);
    }
    s.tick(50_000, &tree(), &mut irqs);
    assert!(!s.is_idle(), "RIS!=0 → not idle");
}

#[test]
fn spi_edges_tx_dreq_true_when_enabled_and_room() {
    let mut s = SpiRegs::new(IRQ);
    let mut irqs = 0u32;
    s.write32(SSPCR1, 0x02, 0, &mut irqs);
    assert!(s.tx_dreq());
}

#[test]
fn rx_dreq_true_when_loopback_has_data() {
    let mut s = SpiRegs::new(IRQ);
    let mut irqs = 0u32;
    s.write32(SSPCR0, 0x07, 0, &mut irqs);
    s.write32(SSPCR1, 0x02 | 0x01, 0, &mut irqs);
    s.write32(SSPDR, 0x42, 0, &mut irqs);
    assert!(s.rx_dreq());
}

#[test]
fn sr_read_reports_tfe_at_reset() {
    let mut s = SpiRegs::new(IRQ);
    let sr = s.read32(SSPSR);
    assert_ne!(sr & (1 << 0), 0);
}

#[test]
fn refresh_clears_rx_irq_when_below_threshold() {
    let mut s = SpiRegs::new(IRQ);
    let mut irqs = 0u32;
    s.write32(SSPCR0, 0x07, 0, &mut irqs);
    s.write32(SSPCR1, 0x02 | 0x01, 0, &mut irqs);
    s.write32(SSPIMSC, SSP_INT_RX, 0, &mut irqs);
    s.write32(SSPCPSR, 2, 0, &mut irqs);
    for _ in 0..4 {
        s.write32(SSPDR, 0x11, 0, &mut irqs);
    }
    for _ in 0..4 {
        let _ = s.read32(SSPDR);
    }
    s.tick(10_000, &tree(), &mut irqs);
    assert_eq!(s.read32(SSPRIS) & SSP_INT_RX, 0, "RX bit must drop");
}

#[test]
fn frame_data_mask_16_bits() {
    let mut s = SpiRegs::new(IRQ);
    let mut irqs = 0u32;
    s.write32(SSPCR0, 0x0F, 0, &mut irqs);
    s.write32(SSPCR1, 0x02 | 0x01, 0, &mut irqs);
    s.write32(SSPDR, 0xFFFF_FFFF, 0, &mut irqs);
    assert_eq!(s.read32(SSPDR), 0xFFFF, "16-bit DSS truncates input");
}
