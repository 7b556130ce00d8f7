use rp2040_emu::bits::apply_alias;
use rp2040_emu::bus::{Bus, CLOCKS_BASE, PLL_SYS_BASE, PLL_USB_BASE, PWM_BASE, RESETS_BASE, UART0_BASE};
use rp2040_emu::clocks::{Pll, PLL_CS_LOCK};
use rp2040_emu::dma::Dma;
use rp2040_emu::fifo::Fifo;
use rp2040_emu::fixtures::dma::{ctrl, program, release};
use rp2040_emu::fixtures::release_all;
use rp2040_emu::memory::{load_from, overlay, store_to, Width};

#[test]
fn sram_gives_back_each_width() {
    let mut bus = Bus::new();
    bus.write32(0x2000_0100, 0x1122_3344);
    assert_eq!(bus.read32(0x2000_0100), 0x1122_3344);
    assert_eq!(bus.read16(0x2000_0102), 0x1122);
    assert_eq!(bus.read8(0x2000_0101), 0x33);
    bus.write8(0x2000_0101, 0xEE);
    assert_eq!(bus.read32(0x2000_0100), 0x1122_EE44);
    bus.write16(0x2000_0102, 0xBEEF);
    assert_eq!(bus.read32(0x2000_0100), 0xBEEF_EE44);
    assert!(!bus.bus_fault());
}

#[test]
fn sram_writes_leave_neighbours_alone() {
    let mut bus = Bus::new();
    bus.write32(0x2000_0200, 0xAAAA_AAAA);
    bus.write32(0x2000_0208, 0xBBBB_BBBB);
    bus.write32(0x2000_0204, 0x0102_0304);
    assert_eq!(bus.read32(0x2000_0200), 0xAAAA_AAAA);
    assert_eq!(bus.read32(0x2000_0208), 0xBBBB_BBBB);
}

#[test]
fn last_sram_word_is_mapped_and_the_next_is_not() {
    let mut bus = Bus::new();
    bus.write32(0x2004_1FFC, 0x5A5A_1234);
    assert_eq!(bus.read32(0x2004_1FFC), 0x5A5A_1234);
    assert!(!bus.bus_fault());
    bus.write32(0x2004_2000, 1);
    assert!(bus.bus_fault());
    assert_eq!(bus.bus_fault_addr(), 0x2004_2000);
}

#[test]
fn rom_and_flash_ignore_writes() {
    let mut bus = Bus::new();
    bus.load_bootrom(&[1, 2, 3, 4]);
    bus.load_flash(&[5, 6, 7, 8]);
    bus.write32(0x0000_0000, 0xFFFF_FFFF);
    bus.write32(0x1000_0000, 0xFFFF_FFFF);
    assert_eq!(bus.read32(0x0000_0000), 0x0403_0201);
    assert_eq!(bus.read32(0x1000_0000), 0x0807_0605);
}

#[test]
fn unmapped_regions_read_zero_and_fault() {
    for region in [3u32, 6, 7, 8, 9, 0xA, 0xB, 0xC, 0xF] {
        let mut bus = Bus::new();
        let addr = (region << 28) | 0x123C;
        assert_eq!(bus.read32(addr), 0);
        assert!(bus.bus_fault());
        assert_eq!(bus.bus_fault_addr(), addr);
        bus.clear_bus_fault();
        bus.write8(addr, 1);
        assert!(bus.bus_fault());
    }
}

#[test]
fn held_uart_takes_nothing_until_released() {
    let mut bus = Bus::new();
    bus.write32(UART0_BASE + 0x24, 7);
    assert_eq!(bus.read32(UART0_BASE + 0x24), 0);
    release_all(&mut bus);
    assert_eq!(bus.read32(UART0_BASE + 0x24), 0);
    bus.write32(UART0_BASE + 0x24, 7);
    assert_eq!(bus.read32(UART0_BASE + 0x24), 7);
}

#[test]
fn reset_register_through_its_four_ports() {
    let mut bus = Bus::new();
    assert_eq!(bus.read32(RESETS_BASE), 0x01FF_FFFF);
    bus.write32(RESETS_BASE + 0x3000, 0xFFFF_FFFF);
    assert_eq!(bus.read32(RESETS_BASE), 0);
    bus.write32(RESETS_BASE + 0x2000, 0x0000_0405);
    assert_eq!(bus.read32(RESETS_BASE), 0x405);
    bus.write32(RESETS_BASE + 0x1000, 0x0000_0401);
    assert_eq!(bus.read32(RESETS_BASE), 0x004);
    bus.write32(RESETS_BASE, 0xFFFF_FFFF);
    assert_eq!(bus.read32(RESETS_BASE), 0x01FF_FFFF);
    assert_eq!(bus.read32(RESETS_BASE + 8), 0);
}

#[test]
fn alias_ports_undo_each_other() {
    let cur = 0xF0F0_1234;
    let val = 0x0FF0_00FF;
    assert_eq!(apply_alias(apply_alias(cur, val, 1), val, 1), cur);
    assert_eq!(apply_alias(apply_alias(cur, val, 2), val, 3), cur & !val);
    assert_eq!(apply_alias(apply_alias(cur, val, 3), val, 2), cur | val);
    assert_eq!(apply_alias(cur, val, 0), val);
}

#[test]
fn polled_lock_bit_follows_the_clock() {
    let mut bus = Bus::new();
    bus.write32(PLL_SYS_BASE + 0x8, 125);
    bus.write32(PLL_SYS_BASE + 0x4, 0);
    let at = bus.pll_sys_lock_at_cycle.expect("the loop is running");
    bus.master_cycle = at - 1;
    assert_eq!(bus.read32(PLL_SYS_BASE) & PLL_CS_LOCK, 0);
    bus.master_cycle = at;
    assert_eq!(bus.read32(PLL_SYS_BASE) & PLL_CS_LOCK, PLL_CS_LOCK);
}

#[test]
fn stored_control_word_has_no_lock_bit() {
    let mut p = Pll::new();
    let lock = p.write32(None, 0x0, 0xFFFF_FFFF, 0, 5);
    assert_eq!(lock, None);
    assert_eq!(p.cs, 0x13F);
    assert_eq!(p.read32(None, 0x0, 9), 0x13F);
    assert_eq!(p.read32(Some(9), 0x0, 9), 0x13F | PLL_CS_LOCK);
}

#[test]
fn fifo_keeps_order_and_drops_what_does_not_fit() {
    let mut f = Fifo::new();
    for v in 0..6u32 {
        f.push(v, 4);
    }
    assert_eq!(f.len(), 4);
    assert_eq!(f.pop(), Some(0));
    f.push(9, 4);
    assert_eq!(f.pop(), Some(1));
    assert_eq!(f.pop(), Some(2));
    assert_eq!(f.pop(), Some(3));
    assert_eq!(f.pop(), Some(9));
    assert_eq!(f.pop(), None);
}

#[test]
fn memory_stores_little_endian() {
    let mut m = vec![0u8; 8];
    store_to(&mut m, 2, Width::Word, 0xA1B2_C3D4);
    assert_eq!(m, vec![0, 0, 0xD4, 0xC3, 0xB2, 0xA1, 0, 0]);
    assert_eq!(load_from(&m, 2, Width::Word), 0xA1B2_C3D4);
    assert_eq!(load_from(&m, 3, Width::Half), 0xB2C3);
    assert_eq!(load_from(&m, 5, Width::Word), 0);
    store_to(&mut m, 5, Width::Word, 0xFFFF_FFFF);
    assert_eq!(m[5], 0xA1);
}

#[test]
fn overlay_is_cut_off_at_the_end() {
    let mut m = vec![0u8; 4];
    overlay(&mut m, 2, &[7, 8, 9]);
    assert_eq!(m, vec![0, 0, 7, 8]);
    overlay(&mut m, 9, &[1]);
    assert_eq!(m, vec![0, 0, 7, 8]);
}

#[test]
fn control_word_fields_land_where_the_channel_reads_them() {
    let c = ctrl(true, true, false, 1, 5, 0x3F, 3, true, true);
    assert_eq!(c, 1 | (1 << 2) | (1 << 4) | (3 << 6) | (1 << 10) | (5 << 11) | (0x3F << 15) | (1 << 21));
    assert_eq!(ctrl(false, false, true, 2, 0, 0, 0, false, false), 0x28);
}

#[test]
fn transfer_copies_a_word() {
    let mut bus = Bus::new();
    release(&mut bus);
    bus.write32(0x2000_0000, 0xCAFE_F00D);
    let c = ctrl(true, true, true, 2, 3, 0x3F, 0, false, false);
    program(&mut bus, 3, 0x2000_0000, 0x2000_0040, 1, c);
    bus.write32(0x5000_0430, 1 << 3);
    bus.run_dma(4);
    assert_eq!(bus.read32(0x2000_0040), 0xCAFE_F00D);
    assert_eq!(bus.read32(0x2000_0000), 0xCAFE_F00D);
    assert!(!bus.dma.channel(3).busy);
}

#[test]
fn lowest_ready_channel_moves_first() {
    let mut bus = Bus::new();
    release(&mut bus);
    bus.write32(0x2000_0000, 0x1111_1111);
    bus.write32(0x2000_0004, 0x2222_2222);
    program(&mut bus, 7, 0x2000_0000, 0x2000_0100, 1, ctrl(true, false, false, 2, 7, 0x3F, 0, false, false));
    program(&mut bus, 2, 0x2000_0004, 0x2000_0104, 1, ctrl(true, false, false, 2, 2, 0x3F, 0, false, false));
    bus.write32(0x5000_0430, (1 << 7) | (1 << 2));
    assert_eq!(bus.dma.select(1u64 << 63), Some(2));
    bus.run_dma(1);
    assert_eq!(bus.read32(0x2000_0104), 0x2222_2222);
    assert_eq!(bus.read32(0x2000_0100), 0);
    bus.run_dma(1);
    assert_eq!(bus.read32(0x2000_0100), 0x1111_1111);
}

#[test]
fn abort_stops_the_named_channels_only() {
    let mut d = Dma::new();
    for n in [1u32, 4] {
        d.write32(n * 0x40 + 0x08, 9, 0);
        d.write32(n * 0x40 + 0x0C, 1, 0);
    }
    assert!(d.channel(1).busy && d.channel(4).busy);
    d.write32(0x444, 1 << 4, 0);
    assert!(d.channel(1).busy);
    assert!(!d.channel(4).busy);
}

#[test]
fn raised_lines_reach_both_cores() {
    let mut bus = Bus::new();
    bus.nvics[1].set_pending(3);
    bus.irq_pending = (1 << 5) | (1 << 20) | (1 << 31);
    bus.latch_irqs();
    for n in 0..2 {
        assert!(bus.nvics[n].is_pending(5));
        assert!(bus.nvics[n].is_pending(20));
        assert!(!bus.nvics[n].is_pending(6));
    }
    assert!(bus.nvics[1].is_pending(3));
    assert!(!bus.nvics[0].is_pending(3));
    assert_eq!(bus.irq_pending(), 0);
}

#[test]
fn trace_line_is_exact() {
    let mut bus = Bus::new();
    bus.mmio_trace_enabled = true;
    bus.write16(0x2000_00FE, 0xBEEF);
    let _ = bus.read8(0x2000_00FF);
    let log = bus.drain_mmio_trace();
    assert_eq!(log.len(), 2);
    assert_eq!(String::from_utf8(log[0].line()).unwrap(), "TRACE W 2 200000FE 0000BEEF\n");
    assert_eq!(String::from_utf8(log[1].line()).unwrap(), "TRACE R 1 200000FF 000000BE\n");
    assert!(bus.drain_mmio_trace().is_empty());
}

#[test]
fn programmed_channel_holds_what_it_was_given() {
    let mut bus = Bus::new();
    release(&mut bus);
    let c = ctrl(true, true, false, 2, 5, 0x3F, 0, false, false);
    program(&mut bus, 5, 0x2000_0010, 0x2000_0020, 7, c);
    let ch = *bus.dma.channel(5);
    assert_eq!((ch.read_addr, ch.write_addr, ch.trans_count, ch.ctrl), (0x2000_0010, 0x2000_0020, 7, c));
    assert!(!ch.busy);
    assert_eq!(bus.dma.channel(4).ctrl, 0);
    assert_eq!(bus.read32(RESETS_BASE), 0x01FF_FFFF & !(1 << 2));
}

#[test]
fn held_dma_controller_does_not_answer() {
    let mut bus = Bus::new();
    bus.write32(0x5000_0000, 0x1234);
    assert_eq!(bus.read32(0x5000_0000), 0);
    release(&mut bus);
    assert_eq!(bus.read32(0x5000_0000), 0);
    bus.write32(0x5000_0000, 0x1234);
    assert_eq!(bus.read32(0x5000_0000), 0x1234);
}

#[test]
fn narrow_register_write_keeps_the_rest_of_the_word() {
    let mut bus = Bus::new();
    bus.write32(CLOCKS_BASE, 0x1122_3344);
    bus.write8(CLOCKS_BASE + 1, 0xEE);
    assert_eq!(bus.read32(CLOCKS_BASE), 0x1122_EE44);
    bus.write16(CLOCKS_BASE + 2, 0xBEEF);
    assert_eq!(bus.read32(CLOCKS_BASE), 0xBEEF_EE44);
    bus.write8(CLOCKS_BASE, 0x01);
    assert_eq!(bus.read32(CLOCKS_BASE), 0xBEEF_EE01);
    assert_eq!(bus.read8(CLOCKS_BASE + 3), 0xBE);
    assert_eq!(bus.read16(CLOCKS_BASE), 0xEE01);
}

#[test]
fn narrow_write_through_a_modifying_port_acts_on_its_bytes() {
    let mut bus = Bus::new();
    bus.write32(CLOCKS_BASE, 0x1122_3344);
    bus.write8(CLOCKS_BASE + 0x2002, 0x0F);
    assert_eq!(bus.read32(CLOCKS_BASE), 0x112F_3344);
    bus.write16(CLOCKS_BASE + 0x3002, 0x1100);
    assert_eq!(bus.read32(CLOCKS_BASE), 0x002F_3344);
    bus.write8(CLOCKS_BASE + 0x1001, 0xFF);
    assert_eq!(bus.read32(CLOCKS_BASE), 0x002F_CC44);
}

#[test]
fn narrow_write_to_a_modelled_register_keeps_the_rest() {
    let mut bus = Bus::new();
    release_all(&mut bus);
    bus.write32(PWM_BASE + 0x0C, 0xAAAA_BBBB);
    bus.write16(PWM_BASE + 0x0C, 0x1234);
    assert_eq!(bus.read32(PWM_BASE + 0x0C), 0xAAAA_1234);
    bus.write16(PWM_BASE + 0x0E, 0x5678);
    assert_eq!(bus.read32(PWM_BASE + 0x0C), 0x5678_1234);
    bus.write8(PWM_BASE + 0x0D, 0x00);
    assert_eq!(bus.read32(PWM_BASE + 0x0C), 0x5678_0034);
}

#[test]
fn unknown_loop_register_leaves_the_clocks_alone() {
    let mut bus = Bus::new();
    release_all(&mut bus);
    let derived = bus.clock_tree.peri_clk_hz;
    bus.clock_tree.peri_clk_hz = 48_000_001;
    for offset in [0x10u32, 0x20, 0x30] {
        bus.write32(PLL_SYS_BASE + offset, 0);
        bus.write32(PLL_USB_BASE + offset, 0);
    }
    assert_eq!(bus.clock_tree.peri_clk_hz, 48_000_001);
    bus.write32(PLL_SYS_BASE + 0x08, 100);
    assert_eq!(bus.clock_tree.peri_clk_hz, derived);
}
