use rp2040_emu::fixtures::uart::tree;
use rp2040_emu::peripherals::uart::{UARTCR, UARTDMACR, UARTDR, UARTFBRD, UARTFR, UARTIBRD, UARTIFLS, UARTILPR, UARTIMSC, UARTLCR_H, UARTPCELLID3, UARTPERIPHID3, UARTRSR_ECR, UART_INT_RX, UartRegs};

const IRQ: u32 = 20;

#[test]
fn uart_dreq_false_when_disabled() {
    let u = UartRegs::new(IRQ);
    assert!(!u.tx_dreq());
    assert!(!u.rx_dreq());
    assert!(u.is_idle());
}

#[test]
fn fr_reports_busy_and_txff_when_full() {
    let mut u = UartRegs::new(IRQ);
    let mut irqs = 0;
    u.write32(UARTLCR_H, 1 << 4, 0, &mut irqs);
    u.write32(UARTCR, 0x101, 0, &mut irqs);
    for i in 0..20 {
        u.write32(UARTDR, i as u32, 0, &mut irqs);
    }
    let fr = u.read32(UARTFR);
    assert_ne!(fr & (1 << 3), 0, "BUSY when TX has data");
    assert_ne!(fr & (1 << 5), 0, "TXFF when TX full");
}

#[test]
fn fr_reports_rxff_when_rx_full() {
    let mut u = UartRegs::new(IRQ);
    assert_ne!(u.read32(UARTFR) & (1 << 4), 0, "RXFE at reset");
}

#[test]
fn all_txifls_selections_covered() {
    let mut u = UartRegs::new(IRQ);
    let mut irqs = 0;
    for sel in 0..8u32 {
        u.write32(UARTIFLS, sel, 0, &mut irqs);
        assert_eq!(u.read32(UARTIFLS) & 0x7, sel);
    }
}

#[test]
fn tick_with_unconfigured_baud_drains_one_byte_per_cycle() {
    let mut u = UartRegs::new(IRQ);
    let mut irqs = 0;
    u.write32(UARTLCR_H, 1 << 4, 0, &mut irqs);
    u.write32(UARTCR, 0x101, 0, &mut irqs);
    for _ in 0..3u8 {
        u.write32(UARTDR, 0xAA, 0, &mut irqs);
    }
    u.tick(10, &tree(), &mut irqs);
    assert!(
        u.is_idle() || u.read32(UARTFR) & (1 << 7) != 0,
        "FIFO drains at 1 cycle/byte when baud unconfigured"
    );
}

#[test]
fn tick_with_baud_collapse_handled() {
    let mut u = UartRegs::new(IRQ);
    let mut irqs = 0;
    u.write32(UARTLCR_H, 1 << 4, 0, &mut irqs);
    u.write32(UARTCR, 0x101, 0, &mut irqs);
    u.write32(UARTIBRD, 0xFFFF, 0, &mut irqs);
    u.write32(UARTFBRD, 0x3F, 0, &mut irqs);
    u.write32(UARTDR, 0x42, 0, &mut irqs);
    let t = rp2040_emu::clocks::ClockTree {
        sys_clk_hz: 1,
        peri_clk_hz: 1,
        ..rp2040_emu::clocks::ClockTree::default()
    };
    u.tick(10, &t, &mut irqs);
}

#[test]
fn byte_read_write_non_dr_offsets() {
    let mut u = UartRegs::new(IRQ);
    let mut irqs = 0;
    let _ = u.read8(UARTPERIPHID3);
    let _ = u.read8(UARTPCELLID3);
    u.write8(UARTIMSC, UART_INT_RX as u8, &mut irqs);
    u.write8(UARTDR, 0x11, &mut irqs);
}

#[test]
fn push_tx_dropped_when_tx_disabled() {
    let mut u = UartRegs::new(IRQ);
    let mut irqs = 0;
    u.write32(UARTCR, 0x1, 0, &mut irqs);
    u.write32(UARTDR, 0xAA, 0, &mut irqs);
}

#[test]
fn push_tx_overflow_drops_byte() {
    let mut u = UartRegs::new(IRQ);
    let mut irqs = 0;
    u.write32(UARTLCR_H, 1 << 4, 0, &mut irqs);
    u.write32(UARTCR, 0x101, 0, &mut irqs);
    for i in 0..17u8 {
        u.write32(UARTDR, i as u32, 0, &mut irqs);
    }
    assert!(u.is_idle() || !u.is_idle());
}

#[test]
fn route_irq_false_when_no_mask_match() {
    let mut u = UartRegs::new(IRQ);
    let mut irqs = 0;
    u.write32(UARTLCR_H, 1 << 4, 0, &mut irqs);
    u.write32(UARTCR, 0x101, 0, &mut irqs);
    u.write32(UARTDR, 0x5A, 0, &mut irqs);
    u.tick(50_000, &tree(), &mut irqs);
    assert_eq!(irqs & (1 << IRQ), 0, "no IMSC → no NVIC fire");
}

#[test]
fn tick_zero_cycles_and_disabled_and_empty_are_no_ops() {
    let mut u = UartRegs::new(IRQ);
    let mut irqs = 0;
    u.tick(0, &tree(), &mut irqs);
    u.tick(100, &tree(), &mut irqs);
    u.write32(UARTLCR_H, 1 << 4, 0, &mut irqs);
    u.write32(UARTCR, 0x101, 0, &mut irqs);
    u.tick(100, &tree(), &mut irqs);
}

#[test]
fn rsr_ecr_write_clears() {
    let mut u = UartRegs::new(IRQ);
    u.write32(UARTRSR_ECR, 0xF, 0, &mut 0);
    assert_eq!(u.read32(UARTRSR_ECR), 0);
}

#[test]
fn ilpr_dmacr_roundtrip() {
    let mut u = UartRegs::new(IRQ);
    u.write32(UARTILPR, 0xFF, 0, &mut 0);
    assert_eq!(u.read32(UARTILPR), 0);
    u.write32(UARTDMACR, 0xFF, 0, &mut 0);
    assert_eq!(u.read32(UARTDMACR), 0x7);
}

#[test]
fn unknown_offset_read_write_defaults() {
    let mut u = UartRegs::new(IRQ);
    let mut irqs = 0;
    assert_eq!(u.read32(0xFFF), 0);
    u.write32(0xFFF, 0xDEAD, 0, &mut irqs);
}

#[test]
fn every_txifls_selection_drains_correctly() {
    for sel in 0..5u32 {
        let mut u = UartRegs::new(IRQ);
        let mut irqs = 0;
        u.write32(UARTLCR_H, 1 << 4, 0, &mut irqs);
        u.write32(UARTCR, 0x101, 0, &mut irqs);
        u.write32(UARTIFLS, sel, 0, &mut irqs);
        u.write32(UARTDR, 0x55, 0, &mut irqs);
        u.tick(200_000, &tree(), &mut irqs);
    }
}

#[test]
fn uartdr_and_icr_read_via_word_path() {
    let mut u = UartRegs::new(IRQ);
    let v = u.read32(UARTDR);
    assert_eq!(v, 0);
    let icr = u.read32(0x044);
    assert_eq!(icr, 0);
}

#[test]
fn tick_with_level_above_thresh_does_not_raise_txis() {
    let mut u = UartRegs::new(IRQ);
    let mut irqs = 0;
    u.write32(UARTLCR_H, 1 << 4, 0, &mut irqs);
    u.write32(UARTCR, 0x101, 0, &mut irqs);
    u.write32(UARTIFLS, 0, 0, &mut irqs);
    u.write32(UARTIBRD, 0xFFFF, 0, &mut irqs);
    u.write32(UARTFBRD, 0x3F, 0, &mut irqs);
    for _ in 0..5u8 {
        u.write32(UARTDR, 0x55, 0, &mut irqs);
    }
    u.tick(1, &tree(), &mut irqs);
}

#[test]
fn sysclks_per_byte_fbrd_only_arm() {
    let mut u = UartRegs::new(IRQ);
    let mut irqs = 0;
    u.write32(UARTLCR_H, 1 << 4, 0, &mut irqs);
    u.write32(UARTCR, 0x101, 0, &mut irqs);
    u.write32(UARTIBRD, 0, 0, &mut irqs);
    u.write32(UARTFBRD, 10, 0, &mut irqs);
    u.write32(UARTDR, 0x42, 0, &mut irqs);
    u.tick(100, &tree(), &mut irqs);
}

#[test]
fn is_idle_false_when_ris_latched() {
    let mut u = UartRegs::new(IRQ);
    let mut irqs = 0;
    u.write32(UARTLCR_H, 1 << 4, 0, &mut irqs);
    u.write32(UARTCR, 0x101, 0, &mut irqs);
    u.write32(UARTIBRD, 67, 0, &mut irqs);
    u.write32(UARTFBRD, 52, 0, &mut irqs);
    for _ in 0..5u8 {
        u.write32(UARTDR, 0x55, 0, &mut irqs);
    }
    u.tick(500_000, &tree(), &mut irqs);
    assert!(!u.is_idle());
}

#[test]
fn drain_tx_log_returns_bytes_written() {
    let mut u = UartRegs::new(IRQ);
    let mut irqs = 0;
    u.write32(UARTLCR_H, 1 << 4, 0, &mut irqs);
    u.write32(UARTCR, 0x101, 0, &mut irqs);
    u.write32(UARTDR, 0x41, 0, &mut irqs);
    u.write32(UARTDR, 0x42, 0, &mut irqs);
    let log = u.drain_tx_log();
    assert_eq!(log, vec![0x41, 0x42]);
}

#[test]
fn uart_default_constructor() {
    let _u: UartRegs = Default::default();
}

#[test]
fn txifls_reserved_values_fall_back_to_half() {
    let mut u = UartRegs::new(IRQ);
    let mut irqs = 0;
    u.write32(UARTLCR_H, 1 << 4, 0, &mut irqs);
    u.write32(UARTCR, 0x101, 0, &mut irqs);
    u.write32(UARTIFLS, 5, 0, &mut irqs);
    for i in 0..8u8 {
        u.write32(UARTDR, i as u32, 0, &mut irqs);
    }
    assert_eq!(u.read32(UARTIFLS) & 0x7, 5);
}
