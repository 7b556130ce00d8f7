use rp2040_emu::bus::{Bus, DMA_BASE};
use rp2040_emu::dma::{Dma, NUM_CHANNELS};
use rp2040_emu::dreq::DREQ_FORCE;
use rp2040_emu::fixtures::dma::program;
use rp2040_emu::fixtures::dma_ring::{ctrl, release_dma};
use rp2040_emu::irq::{IRQ_DMA_IRQ_0, IRQ_DMA_IRQ_1};

const CH_READ_ADDR: u32 = 0x00;
const CH_WRITE_ADDR: u32 = 0x04;
const CH_TRANS_COUNT: u32 = 0x08;
const CH_CTRL_TRIG: u32 = 0x0C;
const CH_AL1_CTRL: u32 = 0x10;
const CH_AL1_WRITE_ADDR_TRIG: u32 = 0x18;
const CH_AL1_TRANS_COUNT: u32 = 0x1C;
const CH_AL2_TRANS_COUNT_TRIG: u32 = 0x24;
const CH_AL3_READ_ADDR_TRIG: u32 = 0x3C;
const REG_INTR: u32 = 0x400;
const REG_INTE0: u32 = 0x404;
const REG_INTF0: u32 = 0x408;
const REG_INTS0: u32 = 0x40C;
const REG_INTE1: u32 = 0x414;
const REG_INTF1: u32 = 0x418;
const REG_INTS1: u32 = 0x41C;
const REG_TIMER0: u32 = 0x420;
const REG_MULTI_CHAN_TRIGGER: u32 = 0x430;
const REG_CHAN_ABORT: u32 = 0x444;

#[test]
fn mark_if_pio1_txf_below_window_is_noop() {
    let mut bus = Bus::new();
    release_dma(&mut bus);
    bus.write32(DMA_BASE + CH_WRITE_ADDR, 0x5030_0000);
    assert_eq!(bus.dma.channel(0).ever_wrote_pio1_txf_mask, 0);
}

#[test]
fn mark_if_pio1_txf_far_below_is_noop() {
    let mut bus = Bus::new();
    release_dma(&mut bus);
    bus.write32(DMA_BASE + CH_WRITE_ADDR, 0x2000_0000);
    assert_eq!(bus.dma.channel(0).ever_wrote_pio1_txf_mask, 0);
}

#[test]
fn al1_trans_count_set_alias_triggers_with_or_value() {
    let mut bus = Bus::new();
    release_dma(&mut bus);
    let c = ctrl(true, 2, true, true, DREQ_FORCE, 0, 0, false);
    bus.write32(0x2000_0100, 0xC0DE);
    bus.write32(DMA_BASE + CH_READ_ADDR, 0x2000_0100);
    bus.write32(DMA_BASE + CH_WRITE_ADDR, 0x2000_0200);
    bus.write32(DMA_BASE + CH_AL1_CTRL, c);
    bus.write32(DMA_BASE + 0x2000 + CH_AL1_TRANS_COUNT, 0x1);
    assert!(
        bus.dma.channel(0).busy,
        "SET alias on AL1_TRANS_COUNT must trigger like alias 0"
    );
    bus.tick_dma();
    assert_eq!(bus.read32(0x2000_0200), 0xC0DE);
}

#[test]
fn al1_write_addr_trig_clr_alias_triggers() {
    let mut bus = Bus::new();
    release_dma(&mut bus);
    let c = ctrl(true, 2, true, true, DREQ_FORCE, 0, 0, false);
    bus.write32(0x2000_0100, 0xCA75);
    bus.write32(DMA_BASE + CH_READ_ADDR, 0x2000_0100);
    bus.write32(DMA_BASE + CH_WRITE_ADDR, 0x2000_02FF);
    bus.write32(DMA_BASE + CH_TRANS_COUNT, 1);
    bus.write32(DMA_BASE + CH_AL1_CTRL, c);
    bus.write32(DMA_BASE + 0x3000 + CH_AL1_WRITE_ADDR_TRIG, 0xFF);
    assert!(bus.dma.channel(0).busy);
    bus.tick_dma();
    assert_eq!(bus.read32(0x2000_0200), 0xCA75);
}

#[test]
fn al3_read_addr_trig_xor_alias_triggers() {
    let mut dma = Dma::new();
    dma.write32(CH_READ_ADDR, 0xFFFF_0000, 0);
    dma.write32(CH_TRANS_COUNT, 1, 0);
    let c = ctrl(true, 2, true, true, DREQ_FORCE, 0, 0, false);
    dma.write32(CH_AL1_CTRL, c, 0);
    dma.write32(CH_AL3_READ_ADDR_TRIG, 0x0000_BEEF, 1);
    let ch = dma.channel(0);
    assert_eq!(ch.read_addr, 0xFFFF_BEEF);
    assert!(ch.busy);
}

#[test]
fn inte0_and_inte1_both_route_on_completion() {
    let mut bus = Bus::new();
    release_dma(&mut bus);
    bus.write32(DMA_BASE + REG_INTE0, 0x1);
    bus.write32(DMA_BASE + REG_INTE1, 0x1);
    let c = ctrl(true, 2, true, true, DREQ_FORCE, 0, 0, false);
    bus.write32(0x2000_0100, 0xCAFE);
    program(&mut bus, 0, 0x2000_0100, 0x2000_0200, 1, c);
    bus.write32(DMA_BASE + CH_CTRL_TRIG, c);
    bus.tick_dma();
    let p = bus.irq_pending();
    assert_ne!(p & (1u32 << IRQ_DMA_IRQ_0), 0);
    assert_ne!(p & (1u32 << IRQ_DMA_IRQ_1), 0);
}

#[test]
fn reset_clears_all_state() {
    let mut dma = Dma::new();
    let c = ctrl(true, 2, true, true, DREQ_FORCE, 0, 0, false);
    dma.write32(CH_TRANS_COUNT, 5, 0);
    dma.write32(CH_AL1_CTRL, c, 0);
    dma.write32(REG_INTE0, 0x1, 0);
    dma.write32(REG_INTF0, 0x1, 0);
    assert_ne!(dma.read32(REG_INTS0), 0);
    dma.reset();
    assert!(dma.is_idle());
    assert_eq!(dma.read32(REG_INTE0), 0);
    assert_eq!(dma.read32(REG_INTF0), 0);
    assert_eq!(dma.channel(0).trans_count, 0);
}

#[test]
fn chain_to_non_adjacent_index_arms_correctly() {
    let mut bus = Bus::new();
    release_dma(&mut bus);
    bus.write32(0x2000_0100, 0x1100);
    bus.write32(0x2000_0300, 0x3300);
    let c2 = ctrl(true, 2, false, false, DREQ_FORCE, 2, 0, false);
    program(&mut bus, 2, 0x2000_0300, 0x2000_0400, 1, c2);
    let c0 = ctrl(true, 2, false, false, DREQ_FORCE, 2, 0, false);
    program(&mut bus, 0, 0x2000_0100, 0x2000_0200, 1, c0);
    bus.write32(DMA_BASE + CH_CTRL_TRIG, c0);
    bus.tick_dma();
    assert!(bus.dma.channel(2).busy);
    bus.tick_dma();
    assert_eq!(bus.read32(0x2000_0200), 0x1100);
    assert_eq!(bus.read32(0x2000_0400), 0x3300);
}

#[test]
fn is_idle_true_after_intr_ack() {
    let mut bus = Bus::new();
    release_dma(&mut bus);
    let c = ctrl(true, 2, true, true, DREQ_FORCE, 0, 0, false);
    bus.write32(0x2000_0100, 0x1234);
    program(&mut bus, 0, 0x2000_0100, 0x2000_0200, 1, c);
    bus.write32(DMA_BASE + CH_CTRL_TRIG, c);
    bus.tick_dma();
    assert!(!bus.dma.is_idle(), "INTR[0] keeps controller non-idle");
    bus.write32(DMA_BASE + REG_INTR, 1);
    assert!(bus.dma.is_idle());
}

#[test]
fn ring_size_zero_on_read_is_plain_increment() {
    let mut bus = Bus::new();
    release_dma(&mut bus);
    for i in 0..3u32 {
        bus.write32(0x2000_0100 + i * 4, 0xC0_0000 + i);
    }
    let c = ctrl(true, 2, true, true, DREQ_FORCE, 0, 0, false);
    program(&mut bus, 0, 0x2000_0100, 0x2000_0200, 3, c);
    bus.write32(DMA_BASE + CH_CTRL_TRIG, c);
    for _ in 0..3 {
        bus.tick_dma();
    }
    for i in 0..3u32 {
        assert_eq!(bus.read32(0x2000_0200 + i * 4), 0xC0_0000 + i);
    }
}

#[test]
fn ch_abort_highest_channel_index_eleven() {
    let mut bus = Bus::new();
    release_dma(&mut bus);
    const DREQ_UART1_RX: u8 = 23;
    let c = ctrl(true, 2, true, true, DREQ_UART1_RX, 0, 0, false);
    program(&mut bus, 11, 0x2000_0100, 0x2000_0200, 100, c);
    bus.write32(DMA_BASE + 11 * 0x40 + CH_CTRL_TRIG, c);
    assert!(bus.dma.channel(11).busy);
    bus.write32(DMA_BASE + REG_CHAN_ABORT, 1u32 << 11);
    assert!(!bus.dma.channel(11).busy);
    for ch in 0..NUM_CHANNELS - 1 {
        assert!(!bus.dma.channel(ch).busy);
    }
}

#[test]
fn multi_chan_trigger_masks_unconfigured_channels() {
    let mut bus = Bus::new();
    release_dma(&mut bus);
    let c = ctrl(true, 2, true, true, DREQ_FORCE, 0, 0, false);
    program(&mut bus, 4, 0x2000_0100, 0x2000_0200, 1, c);
    program(&mut bus, 9, 0x2000_0300, 0x2000_0400, 1, c);
    bus.write32(DMA_BASE + REG_MULTI_CHAN_TRIGGER, 0xFFF);
    for ch in 0..NUM_CHANNELS {
        let want_busy = ch == 4 || ch == 9;
        assert_eq!(
            bus.dma.channel(ch).busy,
            want_busy,
            "ch{} busy mismatch (want={want_busy})",
            ch
        );
    }
}

#[test]
fn al2_trans_count_trig_clr_alias_triggers() {
    let mut dma = Dma::new();
    let c = ctrl(true, 2, true, true, DREQ_FORCE, 0, 0, false);
    dma.write32(CH_AL1_CTRL, c, 0);
    dma.write32(CH_TRANS_COUNT, 0xFF, 0);
    dma.write32(CH_AL2_TRANS_COUNT_TRIG, 0xFE, 3);
    assert_eq!(dma.channel(0).trans_count, 1);
    assert!(dma.channel(0).busy, "AL2 TRIG with CLR must arm");
    assert_eq!(
        dma.channel(0).trig_al2_trans,
        1,
        "AL2 path counter (not AL1)"
    );
}

#[test]
fn route_irqs_idle_does_not_assert() {
    let dma = Dma::new();
    let mut pending = 0u32;
    dma.route_irqs(&mut pending);
    assert_eq!(pending, 0);
}

#[test]
fn timer0_register_roundtrip_at_rp2040_offset() {
    let mut bus = Bus::new();
    release_dma(&mut bus);
    bus.write32(DMA_BASE + REG_TIMER0, 0x1234_5678);
    assert_eq!(bus.read32(DMA_BASE + REG_TIMER0), 0x1234_5678);
}

#[test]
fn intf1_without_inte1_is_masked() {
    let mut dma = Dma::new();
    dma.write32(REG_INTF1, 0xF, 0);
    assert_eq!(dma.read32(REG_INTS1), 0);
    let mut pending = 0u32;
    dma.route_irqs(&mut pending);
    assert_eq!(pending & (1u32 << IRQ_DMA_IRQ_1), 0);
}
