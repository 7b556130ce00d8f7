use rp2040_emu::bus::{Bus, DMA_BASE};
use rp2040_emu::dma::{Dma, NUM_CHANNELS};
use rp2040_emu::dreq::DREQ_FORCE;
use rp2040_emu::fixtures::dma::{ctrl, program, release};
use rp2040_emu::irq::{IRQ_DMA_IRQ_0, IRQ_DMA_IRQ_1};

const CH_READ_ADDR: u32 = 0x00;
const CH_WRITE_ADDR: u32 = 0x04;
const CH_TRANS_COUNT: u32 = 0x08;
const CH_CTRL_TRIG: u32 = 0x0C;
const CH_AL1_CTRL: u32 = 0x10;
const CH_AL1_READ_ADDR: u32 = 0x14;
const CH_AL1_WRITE_ADDR_TRIG: u32 = 0x18;
const CH_AL1_TRANS_COUNT: u32 = 0x1C;
const CH_AL2_CTRL: u32 = 0x20;
const CH_AL2_TRANS_COUNT_TRIG: u32 = 0x24;
const CH_AL2_READ_ADDR: u32 = 0x28;
const CH_AL2_WRITE_ADDR: u32 = 0x2C;
const CH_AL3_CTRL: u32 = 0x30;
const CH_AL3_WRITE_ADDR: u32 = 0x34;
const CH_AL3_TRANS_COUNT: u32 = 0x38;
const CH_AL3_READ_ADDR_TRIG: u32 = 0x3C;
const REG_INTR: u32 = 0x400;
const REG_INTE0: u32 = 0x404;
const REG_INTF0: u32 = 0x408;
const REG_INTS0: u32 = 0x40C;
const REG_INTE1: u32 = 0x414;
const REG_INTF1: u32 = 0x418;
const REG_INTS1: u32 = 0x41C;
const REG_TIMER0: u32 = 0x420;
const REG_MULTI_CHAN_TRIGGER: u32 = 0x430;
const REG_SNIFF_CTRL: u32 = 0x434;
const REG_SNIFF_DATA: u32 = 0x438;
const REG_FIFO_LEVELS: u32 = 0x440;
const REG_CHAN_ABORT: u32 = 0x444;

#[test]
fn channel_register_aliases_readback() {
    let mut bus = Bus::new();
    release(&mut bus);
    let c = ctrl(true, true, true, 2, 0, DREQ_FORCE, 0, false, false);
    program(&mut bus, 0, 0x2000_0100, 0x2000_0200, 5, c);
    let base = DMA_BASE;
    assert_eq!(bus.read32(base + CH_READ_ADDR), 0x2000_0100);
    assert_eq!(bus.read32(base + CH_AL1_READ_ADDR), 0x2000_0100);
    assert_eq!(bus.read32(base + CH_AL2_READ_ADDR), 0x2000_0100);
    assert_eq!(bus.read32(base + CH_AL3_READ_ADDR_TRIG), 0x2000_0100);
    assert_eq!(bus.read32(base + CH_WRITE_ADDR), 0x2000_0200);
    assert_eq!(bus.read32(base + CH_AL1_WRITE_ADDR_TRIG), 0x2000_0200);
    assert_eq!(bus.read32(base + CH_AL2_WRITE_ADDR), 0x2000_0200);
    assert_eq!(bus.read32(base + CH_AL3_WRITE_ADDR), 0x2000_0200);
    assert_eq!(bus.read32(base + CH_TRANS_COUNT), 5);
    assert_eq!(bus.read32(base + CH_AL1_TRANS_COUNT), 5);
    assert_eq!(bus.read32(base + CH_AL2_TRANS_COUNT_TRIG), 5);
    assert_eq!(bus.read32(base + CH_AL3_TRANS_COUNT), 5);
    let rd = bus.read32(base + CH_CTRL_TRIG);
    assert_eq!(rd & 0xFF_FFFF, c & 0xFF_FFFF);
    assert_eq!(bus.read32(base + CH_AL1_CTRL) & 0xFF_FFFF, c & 0xFF_FFFF);
    assert_eq!(bus.read32(base + CH_AL2_CTRL) & 0xFF_FFFF, c & 0xFF_FFFF);
    assert_eq!(bus.read32(base + CH_AL3_CTRL) & 0xFF_FFFF, c & 0xFF_FFFF);
}

#[test]
fn read_unmapped_global_returns_zero() {
    let mut bus = Bus::new();
    release(&mut bus);
    assert_eq!(bus.read32(DMA_BASE + 0xF00), 0);
}

#[test]
fn misc_global_reads() {
    let mut bus = Bus::new();
    release(&mut bus);
    assert_eq!(bus.read32(DMA_BASE + REG_FIFO_LEVELS), 0);
    assert_eq!(bus.read32(DMA_BASE + REG_CHAN_ABORT), 0);
    bus.write32(DMA_BASE + REG_INTF0, 0x5);
    assert_eq!(bus.read32(DMA_BASE + REG_INTF0), 0x5);
    bus.write32(DMA_BASE + REG_INTF1, 0xA);
    assert_eq!(bus.read32(DMA_BASE + REG_INTF1), 0xA);
    bus.write32(DMA_BASE + REG_INTE1, 0xFF);
    assert_eq!(bus.read32(DMA_BASE + REG_INTE1), 0xFF);
    assert_eq!(bus.read32(DMA_BASE + REG_MULTI_CHAN_TRIGGER), 0);
}

#[test]
fn timer_registers_roundtrip() {
    let mut bus = Bus::new();
    release(&mut bus);
    for i in 0..4u32 {
        bus.write32(DMA_BASE + REG_TIMER0 + i * 4, 0x1000 + i);
        assert_eq!(bus.read32(DMA_BASE + REG_TIMER0 + i * 4), 0x1000 + i);
    }
}

#[test]
fn sniff_registers_roundtrip() {
    let mut bus = Bus::new();
    release(&mut bus);
    bus.write32(DMA_BASE + REG_SNIFF_CTRL, 0xDEAD);
    assert_eq!(bus.read32(DMA_BASE + REG_SNIFF_CTRL), 0xDEAD);
    bus.write32(DMA_BASE + REG_SNIFF_DATA, 0xBEEF);
    assert_eq!(bus.read32(DMA_BASE + REG_SNIFF_DATA), 0xBEEF);
}

#[test]
fn dbg_block_readback() {
    let mut bus = Bus::new();
    release(&mut bus);
    let c = ctrl(true, true, true, 2, 0, DREQ_FORCE, 0, false, false);
    program(&mut bus, 2, 0x2000_0100, 0x2000_0200, 9, c);
    assert_eq!(bus.read32(DMA_BASE + 0x800 + 2 * 0x40), 0);
    assert_eq!(bus.read32(DMA_BASE + 0x800 + 2 * 0x40 + 4), 9);
    assert_eq!(bus.read32(DMA_BASE + 0x800 + 2 * 0x40 + 8), 0);
    assert_eq!(
        bus.read32(DMA_BASE + 0x800 + 0x40 * NUM_CHANNELS as u32 + 4),
        0
    );
}

#[test]
fn alias_writes_xor_set_clr_on_inte0() {
    let mut bus = Bus::new();
    release(&mut bus);
    bus.write32(DMA_BASE + REG_INTE0, 0xF);
    assert_eq!(bus.read32(DMA_BASE + REG_INTE0), 0xF);
    bus.write32(DMA_BASE + 0x1000 + REG_INTE0, 0x11);
    assert_eq!(bus.read32(DMA_BASE + REG_INTE0), 0xF ^ 0x11);
    bus.write32(DMA_BASE + 0x2000 + REG_INTE0, 0xF0);
    assert_eq!(bus.read32(DMA_BASE + REG_INTE0), (0xF ^ 0x11) | 0xF0);
    bus.write32(DMA_BASE + 0x3000 + REG_INTE0, 0xFF);
    assert_eq!(bus.read32(DMA_BASE + REG_INTE0), 0);
}

#[test]
fn alias_writes_on_channel_register() {
    let mut bus = Bus::new();
    release(&mut bus);
    bus.write32(DMA_BASE + CH_READ_ADDR, 0xFFFF_0000);
    bus.write32(DMA_BASE + 0x1000 + CH_READ_ADDR, 0x0000_AAAA);
    assert_eq!(bus.read32(DMA_BASE + CH_READ_ADDR), 0xFFFF_AAAA);
    bus.write32(DMA_BASE + 0x3000 + CH_READ_ADDR, 0x0000_00FF);
    assert_eq!(bus.read32(DMA_BASE + CH_READ_ADDR), 0xFFFF_AA00);
}

#[test]
fn trigger_with_en_zero_does_not_arm() {
    let mut dma = Dma::new();
    dma.write32(CH_TRANS_COUNT, 5, 0);
    let c = ctrl(false, true, true, 2, 0, DREQ_FORCE, 0, false, false);
    dma.write32(CH_CTRL_TRIG, c, 0);
    assert!(!dma.channel(0).busy, "EN=0 must not arm");
    assert_eq!(dma.channel(0).trig_ctrl, 1, "counter still bumps");
}

#[test]
fn trigger_with_zero_count_does_not_arm() {
    let mut dma = Dma::new();
    let c = ctrl(true, true, true, 2, 0, DREQ_FORCE, 0, false, false);
    dma.write32(CH_CTRL_TRIG, c, 0);
    assert!(!dma.channel(0).busy, "TRANS_COUNT=0 must not arm");
}

#[test]
fn multi_chan_trigger_with_disabled_channel_bumps_counter_only() {
    let mut dma = Dma::new();
    dma.write32(REG_MULTI_CHAN_TRIGGER, 1, 0);
    assert_eq!(dma.channel(0).trig_multi, 1);
    assert!(!dma.channel(0).busy);
}

#[test]
fn byte_sized_transfer() {
    let mut bus = Bus::new();
    release(&mut bus);
    bus.write8(0x2000_0100, 0x5A);
    let c = ctrl(true, true, true, 0, 0, DREQ_FORCE, 0, false, false);
    program(&mut bus, 0, 0x2000_0100, 0x2000_0200, 1, c);
    bus.write32(DMA_BASE + CH_CTRL_TRIG, c);
    bus.tick_dma();
    assert_eq!(bus.read8(0x2000_0200), 0x5A);
}

#[test]
fn halfword_sized_transfer() {
    let mut bus = Bus::new();
    release(&mut bus);
    bus.write16(0x2000_0100, 0xABCD);
    let c = ctrl(true, true, true, 1, 0, DREQ_FORCE, 0, false, false);
    program(&mut bus, 0, 0x2000_0100, 0x2000_0200, 1, c);
    bus.write32(DMA_BASE + CH_CTRL_TRIG, c);
    bus.tick_dma();
    assert_eq!(bus.read16(0x2000_0200), 0xABCD);
}

#[test]
fn reserved_data_size_treats_as_word() {
    let mut bus = Bus::new();
    release(&mut bus);
    bus.write32(0x2000_0100, 0xFACE_CAFE);
    let c = ctrl(true, true, true, 3, 0, DREQ_FORCE, 0, false, false);
    program(&mut bus, 0, 0x2000_0100, 0x2000_0200, 1, c);
    bus.write32(DMA_BASE + CH_CTRL_TRIG, c);
    bus.tick_dma();
    assert_eq!(bus.read32(0x2000_0200), 0xFACE_CAFE);
}

#[test]
fn ring_on_read_wraps_source() {
    let mut bus = Bus::new();
    release(&mut bus);
    for i in 0..4u32 {
        bus.write32(0x2000_0100 + i * 4, 0xA000 + i);
    }
    let c = ctrl(true, true, true, 2, 0, DREQ_FORCE, 4, false, false);
    program(&mut bus, 0, 0x2000_0100, 0x2000_0200, 8, c);
    bus.write32(DMA_BASE + CH_CTRL_TRIG, c);
    for _ in 0..8 {
        bus.tick_dma();
    }
    for i in 0..8u32 {
        assert_eq!(
            bus.read32(0x2000_0200 + i * 4),
            0xA000 + (i & 3),
            "word {i} ring-on-read mismatch",
        );
    }
}

#[test]
fn no_incr_read_repeats_source() {
    let mut bus = Bus::new();
    release(&mut bus);
    bus.write32(0x2000_0100, 0xF00D);
    let c = ctrl(true, false, true, 2, 0, DREQ_FORCE, 0, false, false);
    program(&mut bus, 0, 0x2000_0100, 0x2000_0200, 2, c);
    bus.write32(DMA_BASE + CH_CTRL_TRIG, c);
    for _ in 0..2 {
        bus.tick_dma();
    }
    assert_eq!(bus.read32(0x2000_0200), 0xF00D);
    assert_eq!(bus.read32(0x2000_0204), 0xF00D);
}

#[test]
fn no_incr_write_overwrites_sink() {
    let mut bus = Bus::new();
    release(&mut bus);
    for i in 0..2u32 {
        bus.write32(0x2000_0100 + i * 4, 0xA000 + i);
    }
    let c = ctrl(true, true, false, 2, 0, DREQ_FORCE, 0, false, false);
    program(&mut bus, 0, 0x2000_0100, 0x2000_0200, 2, c);
    bus.write32(DMA_BASE + CH_CTRL_TRIG, c);
    for _ in 0..2 {
        bus.tick_dma();
    }
    assert_eq!(bus.read32(0x2000_0200), 0xA001);
}

#[test]
fn irq_quiet_suppresses_intr_latch() {
    let mut bus = Bus::new();
    release(&mut bus);
    bus.write32(0x2000_0100, 0x1234);
    let c = ctrl(true, false, false, 2, 0, DREQ_FORCE, 0, false, true);
    program(&mut bus, 0, 0x2000_0100, 0x2000_0200, 1, c);
    bus.write32(DMA_BASE + CH_CTRL_TRIG, c);
    bus.tick_dma();
    assert_eq!(bus.dma.intr() & 1, 0, "IRQ_QUIET must suppress INTR");
}

#[test]
fn self_chain_does_not_retrigger() {
    let mut bus = Bus::new();
    release(&mut bus);
    bus.write32(0x2000_0100, 0x1111);
    let c = ctrl(true, false, false, 2, 0, DREQ_FORCE, 0, false, false);
    program(&mut bus, 0, 0x2000_0100, 0x2000_0200, 1, c);
    bus.write32(DMA_BASE + CH_CTRL_TRIG, c);
    bus.tick_dma();
    assert!(!bus.dma.channel(0).busy);
    bus.tick_dma();
    assert!(!bus.dma.channel(0).busy);
}

#[test]
fn chain_to_unprogrammed_target_does_not_arm() {
    let mut bus = Bus::new();
    release(&mut bus);
    bus.write32(0x2000_0100, 0x7777);
    let c = ctrl(true, false, false, 2, 1, DREQ_FORCE, 0, false, false);
    program(&mut bus, 0, 0x2000_0100, 0x2000_0200, 1, c);
    bus.write32(DMA_BASE + CH_CTRL_TRIG, c);
    bus.tick_dma();
    assert!(!bus.dma.channel(0).busy);
    assert!(!bus.dma.channel(1).busy, "CH1 reload=0 → not armed");
}

#[test]
fn tick_with_no_busy_channels_is_noop() {
    let mut bus = Bus::new();
    release(&mut bus);
    bus.tick_dma();
    assert!(bus.dma.is_idle());
}

#[test]
fn tick_skips_non_busy_channel_in_iter() {
    let mut bus = Bus::new();
    release(&mut bus);
    let c = ctrl(true, true, true, 2, 0, DREQ_FORCE, 0, false, false);
    bus.write32(0x2000_0100, 0xCAFE);
    program(&mut bus, 3, 0x2000_0100, 0x2000_0200, 1, c);
    bus.write32(DMA_BASE + 3 * 0x40 + CH_CTRL_TRIG, c);
    bus.tick_dma();
    assert_eq!(bus.read32(0x2000_0200), 0xCAFE);
}

#[test]
fn ints1_is_w1c() {
    let mut bus = Bus::new();
    release(&mut bus);
    let c = ctrl(true, false, false, 2, 0, DREQ_FORCE, 0, false, false);
    bus.write32(0x2000_0100, 0x42);
    program(&mut bus, 0, 0x2000_0100, 0x2000_0200, 1, c);
    bus.write32(DMA_BASE + CH_CTRL_TRIG, c);
    bus.tick_dma();
    assert_eq!(bus.read32(DMA_BASE + REG_INTR) & 1, 1);
    bus.write32(DMA_BASE + REG_INTS1, 1);
    assert_eq!(bus.read32(DMA_BASE + REG_INTR) & 1, 0);
}

#[test]
fn intr_direct_w1c() {
    let mut bus = Bus::new();
    release(&mut bus);
    let c = ctrl(true, false, false, 2, 0, DREQ_FORCE, 0, false, false);
    bus.write32(0x2000_0100, 0x42);
    program(&mut bus, 0, 0x2000_0100, 0x2000_0200, 1, c);
    bus.write32(DMA_BASE + CH_CTRL_TRIG, c);
    bus.tick_dma();
    assert_eq!(bus.read32(DMA_BASE + REG_INTR) & 1, 1);
    bus.write32(DMA_BASE + REG_INTR, 1);
    assert_eq!(bus.read32(DMA_BASE + REG_INTR) & 1, 0);
}

#[test]
fn route_irqs_inte1_leg() {
    let mut dma = Dma::new();
    let mut pending = 0u32;
    dma.route_irqs(&mut pending);
    assert_eq!(pending, 0, "idle → no irq");
    dma.write32(REG_INTE1, 1, 0);
    dma.write32(REG_INTF1, 1, 0);
    let mut pending2 = 0u32;
    dma.route_irqs(&mut pending2);
    assert!(pending2 & (1 << IRQ_DMA_IRQ_1) != 0);
    assert_eq!(pending2 & (1 << IRQ_DMA_IRQ_0), 0);
}

#[test]
fn inte0_intf0_force_routes_irq() {
    let mut dma = Dma::new();
    dma.write32(REG_INTE0, 1, 0);
    dma.write32(REG_INTF0, 1, 0);
    let mut p = 0u32;
    dma.route_irqs(&mut p);
    assert!(p & (1 << IRQ_DMA_IRQ_0) != 0);
}

#[test]
fn chan_abort_multi_channel_mask() {
    let mut bus = Bus::new();
    release(&mut bus);
    let c = ctrl(true, true, true, 2, 0, DREQ_FORCE, 0, false, false);
    for ch in 0..3 {
        program(&mut bus, ch, 0x2000_0100, 0x2000_0300 + ch * 4, 10, c);
        bus.write32(DMA_BASE + ch * 0x40 + CH_CTRL_TRIG, c);
    }
    bus.write32(DMA_BASE + REG_CHAN_ABORT, 0b101);
    assert!(!bus.dma.channel(0).busy);
    assert!(bus.dma.channel(1).busy, "ch1 must remain busy");
    assert!(!bus.dma.channel(2).busy);
}

#[test]
fn ring_size_zero_on_write_is_plain_increment() {
    let mut bus = Bus::new();
    release(&mut bus);
    for i in 0..2u32 {
        bus.write32(0x2000_0100 + i * 4, 0xBB00 + i);
    }
    let c = ctrl(true, true, true, 2, 0, DREQ_FORCE, 0, true, false);
    program(&mut bus, 0, 0x2000_0100, 0x2000_0200, 2, c);
    bus.write32(DMA_BASE + CH_CTRL_TRIG, c);
    for _ in 0..2 {
        bus.tick_dma();
    }
    assert_eq!(bus.read32(0x2000_0200), 0xBB00);
    assert_eq!(bus.read32(0x2000_0204), 0xBB01);
}

#[test]
fn mark_if_pio1_txf_upper_boundary() {
    let mut bus = Bus::new();
    release(&mut bus);
    bus.write32(DMA_BASE + CH_WRITE_ADDR, 0x5030_001C);
    assert_eq!(bus.dma.channel(0).ever_wrote_pio1_txf_mask, 0b1000);
}

#[test]
fn mark_if_pio1_txf_skips_misaligned() {
    let mut bus = Bus::new();
    release(&mut bus);
    bus.write32(DMA_BASE + CH_WRITE_ADDR, 0x5030_0011);
    assert_eq!(bus.dma.channel(0).ever_wrote_pio1_txf_mask, 0);
}

#[test]
fn mark_if_pio1_txf_above_window() {
    let mut bus = Bus::new();
    release(&mut bus);
    bus.write32(DMA_BASE + CH_WRITE_ADDR, 0x5030_0020);
    assert_eq!(bus.dma.channel(0).ever_wrote_pio1_txf_mask, 0);
}

#[test]
fn is_idle_after_reset() {
    let mut dma = Dma::new();
    dma.reset();
    assert!(dma.is_idle());
}

#[test]
fn ints0_ints1_read_compute_masked_intr_and_intf() {
    let mut dma = Dma::new();
    dma.write32(REG_INTE0, 1, 0);
    dma.write32(REG_INTF0, 1, 0);
    assert_eq!(dma.read32(REG_INTS0), 1);
    dma.write32(REG_INTE1, 2, 0);
    dma.write32(REG_INTF1, 2, 0);
    assert_eq!(dma.read32(REG_INTS1), 2);
}

#[test]
fn write_unmapped_global_is_noop() {
    let mut dma = Dma::new();
    dma.write32(0xF00, 0xFFFF_FFFF, 0);
    assert_eq!(dma.read32(REG_INTR), 0);
    assert_eq!(dma.read32(REG_INTE0), 0);
}

#[test]
fn channel_read_misaligned_returns_zero() {
    let dma = Dma::new();
    assert_eq!(dma.read32(0x01), 0);
    assert_eq!(dma.read32(0x02), 0);
    assert_eq!(dma.read32(0x03), 0);
}

#[test]
fn channel_write_misaligned_is_noop() {
    let mut dma = Dma::new();
    dma.write32(0x01, 0xFFFF_FFFF, 0);
    dma.write32(0x02, 0xFFFF_FFFF, 0);
    dma.write32(0x03, 0xFFFF_FFFF, 0);
    assert_eq!(dma.read32(CH_READ_ADDR), 0);
    assert_eq!(dma.read32(CH_WRITE_ADDR), 0);
}

#[test]
fn read_dbg_block_past_last_channel() {
    let dma = Dma::new();
    assert_eq!(dma.read32(0xB00), 0);
    assert_eq!(dma.read32(0xC00), 0);
    assert_eq!(dma.read32(0x500), 0);
    assert_eq!(dma.read32(0x700), 0);
}

#[test]
fn ctrl_read_reports_busy_while_transferring() {
    let mut bus = Bus::new();
    release(&mut bus);
    let c = ctrl(true, true, true, 2, 0, DREQ_FORCE, 0, false, false);
    bus.write32(0x2000_0100, 0x1234);
    program(&mut bus, 0, 0x2000_0100, 0x2000_0200, 100, c);
    bus.write32(DMA_BASE + CH_CTRL_TRIG, c);
    let rd = bus.read32(DMA_BASE + CH_CTRL_TRIG);
    assert!((rd & (1 << 24)) != 0, "CTRL read must splice BUSY");
}

#[test]
fn two_channels_ready_lower_wins_arbitration() {
    let mut bus = Bus::new();
    release(&mut bus);
    let c = ctrl(true, true, true, 2, 0, DREQ_FORCE, 0, false, false);
    bus.write32(0x2000_0100, 0xA001);
    bus.write32(0x2000_0200, 0xB002);
    program(&mut bus, 0, 0x2000_0100, 0x2000_0300, 1, c);
    bus.write32(DMA_BASE + CH_CTRL_TRIG, c);
    program(&mut bus, 1, 0x2000_0200, 0x2000_0400, 1, c);
    bus.write32(DMA_BASE + 0x40 + CH_CTRL_TRIG, c);
    bus.tick_dma();
    assert!(!bus.dma.channel(0).busy);
    assert!(bus.dma.channel(1).busy);
    bus.tick_dma();
    assert!(!bus.dma.channel(1).busy);
    assert_eq!(bus.read32(0x2000_0300), 0xA001);
    assert_eq!(bus.read32(0x2000_0400), 0xB002);
}

#[test]
fn chain_to_out_of_range_is_noop() {
    let mut bus = Bus::new();
    release(&mut bus);
    let c = ctrl(true, false, false, 2, 15, DREQ_FORCE, 0, false, false);
    bus.write32(0x2000_0100, 0x77);
    program(&mut bus, 0, 0x2000_0100, 0x2000_0200, 1, c);
    bus.write32(DMA_BASE + CH_CTRL_TRIG, c);
    bus.tick_dma();
    assert!(!bus.dma.channel(0).busy);
    assert!(!bus.dma.channel(11).busy);
}
