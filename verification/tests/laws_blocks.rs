use rp2040_emu::bus::sio::Sio;
use rp2040_emu::fixtures::tree;
use rp2040_emu::peripherals::adc::{AdcRegs, CS, CS_EN, CS_START_ONCE, FCS, FCS_EN};
use rp2040_emu::peripherals::i2c::{I2cRegs, IC_CLR_TX_ABRT, IC_ENABLE, IC_RAW_INTR_STAT, IC_TAR, INT_TX_ABRT};
use rp2040_emu::peripherals::pwm::{PwmRegs, CSR_EN, SLICE_STRIDE};
use rp2040_emu::peripherals::spi::{SpiRegs, SSPCR0, SSPCR1, SSPDR};
use rp2040_emu::peripherals::timer::{TimerRegs, ALARM0_OFFSET, ARMED_OFFSET, INTE_OFFSET};
use rp2040_emu::peripherals::uart::{UartRegs, UARTCR, UARTDR, UARTIBRD, UARTLCR_H};
use rp2040_emu::pio::Pio;

#[test]
fn loopback_returns_the_frame() {
    let mut irqs = 0;
    let mut s = SpiRegs::new(18);
    s.write32(SSPCR0, 0x3, 0, &mut irqs);
    s.write32(SSPCR1, 0x3, 0, &mut irqs);
    s.write32(SSPDR, 0xAB, 0, &mut irqs);
    assert_eq!(s.read32(SSPDR), 0xB);
    assert_eq!(s.read32(SSPDR), 0);
}

#[test]
fn single_shot_converts_once() {
    let mut irqs = 0;
    let mut a = AdcRegs::new(22);
    a.write32(FCS, FCS_EN, 0, &mut irqs);
    a.write32(CS, CS_EN | CS_START_ONCE, 0, &mut irqs);
    a.tick(249, &tree(), &mut irqs);
    assert_eq!(a.fifo_len(), 0);
    a.tick(1, &tree(), &mut irqs);
    assert_eq!(a.fifo_len(), 1);
    a.tick(100_000, &tree(), &mut irqs);
    assert_eq!(a.fifo_len(), 1);
}

#[test]
fn abort_only_without_acknowledge() {
    for (addr, aborts) in [(0x3Cu32, false), (0x3D, true)] {
        let mut irqs = 0;
        let mut i = I2cRegs::new(23);
        i.write32(IC_TAR, addr, 0, &mut irqs);
        i.write32(IC_ENABLE, 1, 0, &mut irqs);
        i.write32(0x10, 0x200, 0, &mut irqs);
        assert_eq!(i.read32(IC_RAW_INTR_STAT) & INT_TX_ABRT != 0, aborts);
        let _ = i.read32(IC_CLR_TX_ABRT);
        assert_eq!(i.read32(IC_RAW_INTR_STAT) & INT_TX_ABRT, 0);
    }
}

#[test]
fn slices_run_independently() {
    let mut irqs = 0;
    let mut p = PwmRegs::new(4);
    p.write32(2 * SLICE_STRIDE + 0x10, 9, 0, &mut irqs);
    p.write32(2 * SLICE_STRIDE, CSR_EN, 0, &mut irqs);
    p.write32(6 * SLICE_STRIDE, CSR_EN, 0, &mut irqs);
    p.tick(25, &tree(), &mut irqs);
    assert_eq!(p.read32(2 * SLICE_STRIDE + 0x08), 5);
    assert_eq!(p.read32(6 * SLICE_STRIDE + 0x08), 25);
    assert_eq!(p.read32(3 * SLICE_STRIDE + 0x08), 0);
    assert_eq!(p.read32(0xA4), 1 << 2);
}

#[test]
fn poll_fires_exactly_the_due() {
    let mut t = TimerRegs::new();
    t.write32(INTE_OFFSET, 0xF, 0, 0, 125_000_000);
    for (n, at) in [10u32, 20, 30, 40].iter().enumerate() {
        t.write32(ALARM0_OFFSET + 4 * n as u32, *at, 0, 0, 125_000_000);
    }
    assert_eq!(t.poll_alarms(20 * 125, 125_000_000), 0b0011);
    assert_eq!(t.read32(ARMED_OFFSET, 20 * 125, 125_000_000), 0b1100);
    assert_eq!(t.poll_alarms(20 * 125, 125_000_000), 0);
    assert_eq!(t.next_armed_inte_fire_cycle(), Some(30 * 125));
}

#[test]
fn spinlock_is_exclusive() {
    let mut s = Sio::new();
    assert_eq!(s.read32(0x10C, 0), 1 << 3);
    assert_eq!(s.read32(0x10C, 1), 0);
    assert_eq!(s.read32(0x05C, 0), 1 << 3);
    s.write32(0x10C, 0, 0);
    assert_eq!(s.read32(0x10C, 1), 1 << 3);
}

#[test]
fn mailbox_delivers_in_order() {
    let mut s = Sio::new();
    s.set_handshake_armed(false);
    for v in [7u32, 8, 9] {
        s.write32(0x054, v, 0);
    }
    assert_eq!([s.read32(0x058, 1), s.read32(0x058, 1), s.read32(0x058, 1)], [7, 8, 9]);
    assert_eq!(s.read32(0x058, 0), 0);
}

#[test]
fn high_flags_stay_inside() {
    let mut p = Pio::new();
    p.write32(0x170, 0xFFF, 0);
    let before = p.int0_ints();
    p.write32(0x034, 0xF0, 0);
    assert_eq!(p.int0_ints(), before);
    p.write32(0x034, 0x02, 0);
    assert_ne!(p.int0_ints(), before);
}

#[test]
fn word_reversal_through_a_machine() {
    let mut p = Pio::new();
    p.write32(0x010, 0x0000_00F1, 0);
    p.write32(0x0D8, 0x80A0, 0);
    p.write32(0x0D8, 0xA057, 0);
    assert_eq!(p.sms[0].osr, 0x0000_00F1);
    assert_eq!(p.sms[0].y, 0x8F00_0000);
}

#[test]
fn ticks_add_up() {
    let mut irqs = 0;
    let t = tree();
    for (a, b) in [(1u32, 249u32), (7000, 9000), (250, 250)] {
        let mut whole = UartRegs::new(20);
        let mut parts = UartRegs::new(20);
        for u in [&mut whole, &mut parts] {
            u.write32(UARTIBRD, 67, 0, &mut irqs);
            u.write32(UARTLCR_H, 1 << 4, 0, &mut irqs);
            u.write32(UARTCR, 0x301, 0, &mut irqs);
            for v in 0..6 {
                u.write32(UARTDR, v, 0, &mut irqs);
            }
        }
        whole.tick(a + b, &t, &mut irqs);
        parts.tick(a, &t, &mut irqs);
        parts.tick(b, &t, &mut irqs);
        assert_eq!(whole.state, parts.state);

        let mut whole = SpiRegs::new(18);
        let mut parts = SpiRegs::new(18);
        for s in [&mut whole, &mut parts] {
            s.write32(SSPCR0, 0x0107, 0, &mut irqs);
            s.write32(SSPCR1, 0x2, 0, &mut irqs);
            for v in 0..8 {
                s.write32(SSPDR, v, 0, &mut irqs);
            }
        }
        whole.tick(a + b, &t, &mut irqs);
        parts.tick(a, &t, &mut irqs);
        parts.tick(b, &t, &mut irqs);
        assert_eq!(whole, parts);

        let mut whole = PwmRegs::new(4);
        let mut parts = PwmRegs::new(4);
        for p in [&mut whole, &mut parts] {
            p.write32(SLICE_STRIDE + 0x10, 99, 0, &mut irqs);
            p.write32(SLICE_STRIDE, CSR_EN, 0, &mut irqs);
        }
        whole.tick(a + b, &t, &mut irqs);
        parts.tick(a, &t, &mut irqs);
        parts.tick(b, &t, &mut irqs);
        assert_eq!(whole, parts);

        let mut whole = AdcRegs::new(22);
        let mut parts = AdcRegs::new(22);
        for c in [&mut whole, &mut parts] {
            c.write32(FCS, FCS_EN, 0, &mut irqs);
            c.write32(CS, CS_EN | 0x8, 0, &mut irqs);
        }
        whole.tick(a + b, &t, &mut irqs);
        parts.tick(a, &t, &mut irqs);
        parts.tick(b, &t, &mut irqs);
        assert_eq!(whole, parts);
    }
}

#[test]
fn serial_port_tree_keeps_the_default_reference() {
    let t = rp2040_emu::fixtures::uart::tree();
    assert_eq!((t.sys_clk_hz, t.peri_clk_hz, t.ref_clk_hz), (125_000_000, 125_000_000, 6_500_000));
}
