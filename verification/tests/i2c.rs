use rp2040_emu::peripherals::i2c::{I2cRegs, IC_CLR_ACTIVITY, IC_CLR_GEN_CALL, IC_CLR_INTR, IC_CLR_RD_REQ, IC_CLR_RX_DONE, IC_CLR_RX_OVER, IC_CLR_RX_UNDER, IC_CLR_START_DET, IC_CLR_TX_OVER, IC_CON, IC_DATA_CMD, IC_ENABLE, IC_ENABLE_STATUS, IC_FS_SCL_HCNT, IC_FS_SCL_LCNT, IC_FS_SPKLEN, IC_INTR_MASK, IC_RX_TL, IC_SAR, IC_SDA_HOLD, IC_SS_SCL_HCNT, IC_SS_SCL_LCNT, IC_STATUS, IC_TAR, IC_TX_TL, INT_RX_FULL, INT_STOP_DET, INT_TX_ABRT, INT_TX_EMPTY};

const IRQ: u32 = 23;

#[test]
fn tests_dreq_false_when_disabled() {
    let i = I2cRegs::new(IRQ);
    assert!(!i.tx_dreq());
    assert!(!i.rx_dreq());
}

#[test]
fn is_idle_false_when_rx_fifo_non_empty() {
    let mut i = I2cRegs::new(IRQ);
    let mut irqs = 0;
    i.write32(IC_TAR, 0x3C, 0, &mut irqs);
    i.write32(IC_ENABLE, 1, 0, &mut irqs);
    i.write32(IC_DATA_CMD, 1 << 8, 0, &mut irqs);
    assert!(!i.is_idle(), "RX pending breaks idle");
}

#[test]
fn status_exposes_every_fifo_flag() {
    let mut i = I2cRegs::new(IRQ);
    let mut irqs = 0;
    i.write32(IC_TAR, 0x3C, 0, &mut irqs);
    i.write32(IC_ENABLE, 1, 0, &mut irqs);
    i.write32(IC_DATA_CMD, 1 << 8, 0, &mut irqs);
    let s = i.read32(IC_STATUS);
    assert_ne!(s & (1 << 0), 0, "ACTIVITY sticky after transaction");
    assert_ne!(s & (1 << 1), 0, "TFNF");
    assert_ne!(s & (1 << 3), 0, "RFNE");
    for _ in 0..20 {
        i.write32(IC_DATA_CMD, 1 << 8, 0, &mut irqs);
    }
    let s2 = i.read32(IC_STATUS);
    assert_ne!(s2 & (1 << 4), 0, "RFF when RX full");
}

#[test]
fn route_irq_fires_when_mask_match() {
    let mut i = I2cRegs::new(IRQ);
    let mut irqs = 0;
    i.write32(IC_TAR, 0x55, 0, &mut irqs);
    i.write32(IC_ENABLE, 1, 0, &mut irqs);
    i.write32(IC_INTR_MASK, INT_TX_ABRT, 0, &mut irqs);
    i.write32(IC_DATA_CMD, 0, 0, &mut irqs);
    assert_ne!(irqs & (1 << IRQ), 0, "NACK → TX_ABRT → NVIC fire");
}

#[test]
fn simulate_transaction_no_op_when_disabled() {
    let mut i = I2cRegs::new(IRQ);
    let mut irqs = 0;
    i.write32(IC_DATA_CMD, 0x55, 0, &mut irqs);
    let _ = i.read32(0x34);
}

#[test]
fn rx_tl_threshold_triggers_rx_full() {
    let mut i = I2cRegs::new(IRQ);
    let mut irqs = 0;
    i.write32(IC_TAR, 0x3C, 0, &mut irqs);
    i.write32(IC_RX_TL, 1, 0, &mut irqs);
    i.write32(IC_ENABLE, 1, 0, &mut irqs);
    i.write32(IC_DATA_CMD, 1 << 8, 0, &mut irqs);
    i.write32(IC_DATA_CMD, 1 << 8, 0, &mut irqs);
    let raw = i.read32(0x34);
    assert_ne!(raw & INT_RX_FULL, 0, "RX_FULL latches past threshold");
}

#[test]
fn tx_path_sets_tx_empty_and_stop() {
    let mut i = I2cRegs::new(IRQ);
    let mut irqs = 0;
    i.write32(IC_TAR, 0x3C, 0, &mut irqs);
    i.write32(IC_TX_TL, 0, 0, &mut irqs);
    i.write32(IC_ENABLE, 1, 0, &mut irqs);
    i.write32(IC_DATA_CMD, 0x22 | (1 << 9), 0, &mut irqs);
    let raw = i.read32(0x34);
    assert_ne!(raw & INT_STOP_DET, 0, "STOP on data+stop");
    i.write32(IC_TX_TL, 0xFF, 0, &mut irqs);
    i.write32(IC_DATA_CMD, 0x33, 0, &mut irqs);
    let raw2 = i.read32(0x34);
    assert_ne!(raw2 & INT_TX_EMPTY, 0, "TX_EMPTY when len <= tx_tl");
}

#[test]
fn every_clr_reg_clears_matching_bit() {
    let mut i = I2cRegs::new(IRQ);
    i.write32(IC_INTR_MASK, 0x1FFF, 0, &mut 0);
    let seed = 0x1FFFu32;
    i.write32(IC_TAR, 0x55, 0, &mut 0);
    i.write32(IC_ENABLE, 1, 0, &mut 0);
    i.write32(IC_DATA_CMD, 1 << 9, 0, &mut 0);
    let _ = i.read32(IC_CLR_INTR);
    let _ = i.read32(IC_CLR_RX_UNDER);
    let _ = i.read32(IC_CLR_RX_OVER);
    let _ = i.read32(IC_CLR_TX_OVER);
    let _ = i.read32(IC_CLR_RD_REQ);
    let _ = i.read32(IC_CLR_RX_DONE);
    let _ = i.read32(IC_CLR_ACTIVITY);
    let _ = i.read32(IC_CLR_START_DET);
    let _ = i.read32(IC_CLR_GEN_CALL);
    let _ = seed;
}

#[test]
fn sar_ss_fs_sda_spklen_roundtrip() {
    let mut i = I2cRegs::new(IRQ);
    let mut irqs = 0;
    i.write32(IC_SAR, 0xFFFF, 0, &mut irqs);
    assert_eq!(i.read32(IC_SAR), 0x3FF);
    i.write32(IC_SS_SCL_HCNT, 0xFFFF_FFFF, 0, &mut irqs);
    assert_eq!(i.read32(IC_SS_SCL_HCNT), 0xFFFF);
    i.write32(IC_SS_SCL_LCNT, 0xABCD_EF01, 0, &mut irqs);
    assert_eq!(i.read32(IC_SS_SCL_LCNT), 0xEF01);
    i.write32(IC_FS_SCL_HCNT, 0xFFFF_FFFF, 0, &mut irqs);
    assert_eq!(i.read32(IC_FS_SCL_HCNT), 0xFFFF);
    i.write32(IC_FS_SCL_LCNT, 0x1234_5678, 0, &mut irqs);
    assert_eq!(i.read32(IC_FS_SCL_LCNT), 0x5678);
    i.write32(IC_SDA_HOLD, 0xFFFF_FFFF, 0, &mut irqs);
    assert_eq!(i.read32(IC_SDA_HOLD), 0xFFFF);
    i.write32(IC_FS_SPKLEN, 0xFFFF, 0, &mut irqs);
    assert_eq!(i.read32(IC_FS_SPKLEN), 0xFF);
    i.write32(IC_ENABLE, 1, 0, &mut irqs);
    assert_eq!(i.read32(IC_ENABLE_STATUS), 1);
}

#[test]
fn byte_read_write_paths() {
    let mut i = I2cRegs::new(IRQ);
    let mut irqs = 0;
    let v = i.read8(IC_CON);
    assert_ne!(v & 1, 0, "MASTER_MODE bit in CON");
    i.write32(IC_TAR, 0x3C, 0, &mut irqs);
    i.write32(IC_ENABLE, 1, 0, &mut irqs);
    i.write8(IC_DATA_CMD, 0x77, &mut irqs);
    i.write8(IC_INTR_MASK, 0xFF, &mut irqs);
}

#[test]
fn tar_write_while_enabled_is_ignored() {
    let mut i = I2cRegs::new(IRQ);
    let mut irqs = 0;
    i.write32(IC_TAR, 0x3C, 0, &mut irqs);
    i.write32(IC_ENABLE, 1, 0, &mut irqs);
    let pre = i.read32(IC_TAR);
    i.write32(IC_TAR, 0x55, 0, &mut irqs);
    assert_eq!(i.read32(IC_TAR), pre, "TAR write is ignored while EN=1");
}

#[test]
fn plain_storage_offsets_and_default_impl_roundtrip() {
    let mut i = I2cRegs::new(IRQ);
    let mut irqs = 0;
    i.write32(IC_INTR_MASK, 0x12, 0, &mut irqs);
    assert_eq!(i.read32(IC_INTR_MASK), 0x12);
    i.write32(IC_RX_TL, 0x5, 0, &mut irqs);
    assert_eq!(i.read32(IC_RX_TL), 0x5);
    i.write32(IC_TX_TL, 0x8, 0, &mut irqs);
    assert_eq!(i.read32(IC_TX_TL), 0x8);
    let _ = i.read32(0x80);
    assert_eq!(i.read32(0xFFF), 0);
    let _d: I2cRegs = Default::default();
    i.write32(0xFFF, 0, 0, &mut irqs);
}

#[test]
fn tick_with_no_irq_pending() {
    let mut i = I2cRegs::new(IRQ);
    let mut irqs = 0;
    let tree = rp2040_emu::clocks::ClockTree {
        sys_clk_hz: 125_000_000,
        peri_clk_hz: 125_000_000,
        ..rp2040_emu::clocks::ClockTree::default()
    };
    i.tick(10, &tree, &mut irqs);
}

#[test]
fn tx_fifo_saturation_exposes_full_flags() {
    let mut i = I2cRegs::new(IRQ);
    let mut irqs = 0;
    i.write32(IC_TAR, 0x3C, 0, &mut irqs);
    i.write32(IC_TX_TL, 0, 0, &mut irqs);
    i.write32(IC_ENABLE, 1, 0, &mut irqs);
    for _ in 0..20u32 {
        i.write32(IC_DATA_CMD, 0x33, 0, &mut irqs);
    }
    assert!(!i.is_idle());
    let s = i.read32(IC_STATUS);
    assert_eq!(s & (1 << 1), 0, "TFNF clear when TX is full");
    assert_eq!(s & (1 << 2), 0, "TFE clear when TX has data");
}

#[test]
fn rx_tl_stays_above_after_partial_drain() {
    let mut i = I2cRegs::new(IRQ);
    let mut irqs = 0;
    i.write32(IC_TAR, 0x3C, 0, &mut irqs);
    i.write32(IC_RX_TL, 1, 0, &mut irqs);
    i.write32(IC_ENABLE, 1, 0, &mut irqs);
    for _ in 0..3u32 {
        i.write32(IC_DATA_CMD, 1 << 8, 0, &mut irqs);
    }
    let _ = i.read32(IC_DATA_CMD);
}

#[test]
fn sar_alias_rmw_works_while_enabled() {
    let mut i = I2cRegs::new(IRQ);
    let mut irqs = 0;
    i.write32(IC_ENABLE, 1, 0, &mut irqs);
    i.write32(IC_SAR, 0x55, 2, &mut irqs);
    assert_eq!(i.read32(IC_SAR), 0x55);
    i.write32(IC_SAR, 0x01, 3, &mut irqs);
    assert_eq!(i.read32(IC_SAR) & 0x1, 0);
}
