use rp2040_emu::peripherals::spi::{SSPCPSR, SSPCR0, SSPCR1, SSPDMACR, SSPDR, SSPICR, SSPIMSC, SSPPCELLID3, SSPPERIPHID3, SSP_INT_ROR, SSP_INT_RT, SSP_INT_RX, SpiRegs};

const IRQ: u32 = 18;

#[test]
fn is_idle_reflects_ris_only() {
    let mut s = SpiRegs::new(IRQ);
    assert!(s.is_idle());
    s.write32(SSPICR, 0, 0, &mut 0);
    let mut irqs = 0;
    s.write32(SSPCR0, 0x07, 0, &mut irqs);
    s.write32(SSPCR1, 0x02 | 0x01, 0, &mut irqs);
    for _ in 0..20 {
        s.write32(SSPDR, 0xA5, 0, &mut irqs);
    }
    assert!(!s.is_idle());
}

#[test]
fn spi_dreq_false_when_disabled() {
    let s = SpiRegs::new(IRQ);
    assert!(!s.tx_dreq());
    assert!(!s.rx_dreq());
}

#[test]
fn sr_reports_bsy_and_rff_under_load() {
    let mut s = SpiRegs::new(IRQ);
    let mut irqs = 0;
    s.write32(SSPCR0, 0x07, 0, &mut irqs);
    s.write32(SSPCR1, 0x02 | 0x01, 0, &mut irqs);
    for _ in 0..8 {
        s.write32(SSPDR, 0x42, 0, &mut irqs);
    }
    let sr = s.read32(0x00C);
    assert_ne!(sr & (1 << 4), 0, "BSY with pending TX");
    assert_ne!(sr & (1 << 2), 0, "RNE when RX has data");
    assert_ne!(sr & (1 << 3), 0, "RFF when RX full");
}

#[test]
fn rx_irq_level_falls_when_below_threshold() {
    let mut s = SpiRegs::new(IRQ);
    let mut irqs = 0;
    s.write32(SSPCR0, 0x07, 0, &mut irqs);
    s.write32(SSPCR1, 0x02 | 0x01, 0, &mut irqs);
    s.write32(SSPIMSC, SSP_INT_RX, 0, &mut irqs);
    for _ in 0..5 {
        s.write32(SSPDR, 0x11, 0, &mut irqs);
    }
    for _ in 0..4 {
        let _ = s.read32(SSPDR);
    }
    s.write32(SSPDR, 0x22, 0, &mut irqs);
    let _ = s.read32(SSPDR);
    let _ = s.read32(SSPDR);
    let t = rp2040_emu::clocks::ClockTree {
        sys_clk_hz: 125_000_000,
        peri_clk_hz: 125_000_000,
        ..rp2040_emu::clocks::ClockTree::default()
    };
    s.tick(1000, &t, &mut irqs);
}

#[test]
fn push_dr_when_disabled_drops_bytes() {
    let mut s = SpiRegs::new(IRQ);
    let mut irqs = 0;
    s.write32(SSPDR, 0xAA, 0, &mut irqs);
    let _ = s.read32(0x00C);
}

#[test]
fn push_dr_when_rx_full_sets_ror() {
    let mut s = SpiRegs::new(IRQ);
    let mut irqs = 0;
    s.write32(SSPCR0, 0x07, 0, &mut irqs);
    s.write32(SSPCR1, 0x02 | 0x01, 0, &mut irqs);
    for _ in 0..10 {
        s.write32(SSPDR, 0x55, 0, &mut irqs);
    }
    let ris = s.read32(0x018);
    assert_ne!(ris & SSP_INT_ROR, 0, "loopback overrun latches ROR");
}

#[test]
fn pop_dr_on_empty_returns_zero() {
    let mut s = SpiRegs::new(IRQ);
    assert_eq!(s.read32(SSPDR), 0);
}

#[test]
fn tick_handles_zero_denom_gracefully() {
    let mut s = SpiRegs::new(IRQ);
    let mut irqs = 0;
    let t = rp2040_emu::clocks::ClockTree {
        sys_clk_hz: 1,
        peri_clk_hz: 1,
        ..rp2040_emu::clocks::ClockTree::default()
    };
    s.write32(SSPCR0, 0x0F | (255 << 8), 0, &mut irqs);
    s.write32(SSPCPSR, 0xFE, 0, &mut irqs);
    s.write32(SSPCR1, 0x02, 0, &mut irqs);
    s.write32(SSPDR, 0xAA, 0, &mut irqs);
    s.tick(10, &t, &mut irqs);
}

#[test]
fn byte_halfword_reads_of_non_dr_registers() {
    let mut s = SpiRegs::new(IRQ);
    let _ = s.read8(SSPPERIPHID3);
    let _ = s.read16(SSPPERIPHID3);
    let _ = s.read8(SSPPCELLID3);
    let _ = s.read16(SSPPCELLID3);
}

#[test]
fn byte_halfword_writes_of_non_dr_registers() {
    let mut s = SpiRegs::new(IRQ);
    let mut irqs = 0;
    s.write8(SSPIMSC, 0x01, &mut irqs);
    s.write16(SSPCR0, 0x07, &mut irqs);
}

#[test]
fn tick_zero_cycles_is_no_op() {
    let mut s = SpiRegs::new(IRQ);
    let mut irqs = 0;
    s.write32(SSPCR0, 0x07, 0, &mut irqs);
    s.write32(SSPCR1, 0x02, 0, &mut irqs);
    s.write32(SSPDR, 0x11, 0, &mut irqs);
    let t = rp2040_emu::clocks::ClockTree {
        sys_clk_hz: 125_000_000,
        peri_clk_hz: 125_000_000,
        ..rp2040_emu::clocks::ClockTree::default()
    };
    s.tick(0, &t, &mut irqs);
}

#[test]
fn icr_clears_rt_only_when_set() {
    let mut s = SpiRegs::new(IRQ);
    let mut irqs = 0;
    s.write32(0x020, SSP_INT_RT, 0, &mut irqs);
    s.write32(SSPDMACR, 0x3, 0, &mut irqs);
}

#[test]
fn is_idle_false_when_rx_has_data() {
    let mut s = SpiRegs::new(IRQ);
    let mut irqs = 0;
    s.write32(SSPCR0, 0x07, 0, &mut irqs);
    s.write32(SSPCR1, 0x02 | 0x01, 0, &mut irqs);
    s.write32(SSPCPSR, 2, 0, &mut irqs);
    s.write32(SSPDR, 0x55, 0, &mut irqs);
    let t = rp2040_emu::clocks::ClockTree {
        sys_clk_hz: 125_000_000,
        peri_clk_hz: 125_000_000,
        ..rp2040_emu::clocks::ClockTree::default()
    };
    s.tick(10_000, &t, &mut irqs);
    assert!(!s.is_idle());
}

#[test]
fn is_idle_false_when_ris_latched_only() {
    let mut s = SpiRegs::new(IRQ);
    let mut irqs = 0;
    s.write32(SSPCR0, 0x07, 0, &mut irqs);
    s.write32(SSPCR1, 0x02 | 0x01, 0, &mut irqs);
    for _ in 0..10 {
        s.write32(SSPDR, 0x55, 0, &mut irqs);
    }
    for _ in 0..8 {
        let _ = s.read32(SSPDR);
    }
    let t = rp2040_emu::clocks::ClockTree {
        sys_clk_hz: 125_000_000,
        peri_clk_hz: 125_000_000,
        ..rp2040_emu::clocks::ClockTree::default()
    };
    s.write32(SSPCPSR, 2, 0, &mut irqs);
    s.tick(1_000_000, &t, &mut irqs);
    assert!(!s.is_idle());
}

#[test]
fn push_dr_tx_free_but_rx_full() {
    let mut s = SpiRegs::new(IRQ);
    let mut irqs = 0;
    s.write32(SSPCR0, 0x07, 0, &mut irqs);
    s.write32(SSPCR1, 0x02 | 0x01, 0, &mut irqs);
    s.write32(SSPCPSR, 2, 0, &mut irqs);
    for i in 0..8u32 {
        s.write32(SSPDR, i, 0, &mut irqs);
    }
    let t = rp2040_emu::clocks::ClockTree {
        sys_clk_hz: 125_000_000,
        peri_clk_hz: 125_000_000,
        ..rp2040_emu::clocks::ClockTree::default()
    };
    s.tick(1_000_000, &t, &mut irqs);
    s.write32(SSPDR, 0x42, 0, &mut irqs);
}

#[test]
fn tick_drain_exits_via_empty_tx_not_accum() {
    let mut s = SpiRegs::new(IRQ);
    let mut irqs = 0;
    s.write32(SSPCR0, 0x07, 0, &mut irqs);
    s.write32(SSPCPSR, 2, 0, &mut irqs);
    s.write32(SSPCR1, 0x02, 0, &mut irqs);
    s.write32(SSPDR, 0x42, 0, &mut irqs);
    let t = rp2040_emu::clocks::ClockTree {
        sys_clk_hz: 125_000_000,
        peri_clk_hz: 125_000_000,
        ..rp2040_emu::clocks::ClockTree::default()
    };
    s.tick(u32::MAX, &t, &mut irqs);
}

#[test]
fn read32_every_arm_exercised() {
    let mut s = SpiRegs::new(IRQ);
    let _ = s.read32(0x020);
    let _ = s.read32(0xDCA);
    let _ = s.read32(0xFE4);
    let _ = s.read32(0xFE8);
    let _ = s.read32(0xFF4);
    let _ = s.read32(0xFF8);
}

#[test]
fn write32_unknown_offset_ignored() {
    let mut s = SpiRegs::new(IRQ);
    let mut irqs = 0;
    s.write32(0xDCA, 0xDEAD_BEEF, 0, &mut irqs);
}

#[test]
fn spi_default_constructor() {
    let _s: SpiRegs = Default::default();
}

#[test]
fn disable_via_sspcr1_resets_tx_cycle_accum() {
    let mut s = SpiRegs::new(IRQ);
    let mut irqs = 0;
    s.write32(SSPCR0, 0x07, 0, &mut irqs);
    s.write32(SSPCR1, 0x02, 0, &mut irqs);
    s.write32(SSPCR1, 0x00, 0, &mut irqs);
}
