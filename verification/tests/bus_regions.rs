use rp2040_emu::bus::{ADC_BASE, Bus, DMA_BASE, I2C0_BASE, I2C1_BASE, PIO0_BASE, PWM_BASE, SIO_BASE, SPI0_BASE, SPI1_BASE, UART0_BASE, UART1_BASE, WATCHDOG_BASE, XIP_CTRL_BASE, XIP_SRAM_BASE};
use rp2040_emu::bus::ppb::Ppb;

const APB_XOR_OFFSET: u32 = 0x1000;
const APB_SET_OFFSET: u32 = 0x2000;
const APB_CLR_OFFSET: u32 = 0x3000;
const RESETS_BASE: u32 = 0x4000_C000;
const RESETS_CLR: u32 = RESETS_BASE + APB_CLR_OFFSET;

#[test]
fn reserved_region_read32_returns_zero_and_faults() {
    let mut bus = Bus::new();
    for addr in [0x6000_0000u32, 0x9000_0000, 0xA000_0000] {
        bus.clear_bus_fault();
        assert_eq!(bus.read32(addr), 0);
        assert!(bus.bus_fault(), "reserved {addr:#X} must fault read32");
    }
}

#[test]
fn reserved_region_read16_and_read8_fault() {
    let mut bus = Bus::new();
    bus.clear_bus_fault();
    let _ = bus.read16(0x6000_0010);
    assert!(bus.bus_fault());
    bus.clear_bus_fault();
    let _ = bus.read8(0x6000_0010);
    assert!(bus.bus_fault());
}

#[test]
fn reserved_region_write32_sets_busfault() {
    let mut bus = Bus::new();
    bus.write32(0x6000_0000, 0xDEAD_BEEF);
    assert!(bus.bus_fault());
}

#[test]
fn reserved_region_narrow_writes_fault() {
    let mut bus = Bus::new();
    bus.write8(0x6000_0000, 0xAA);
    assert!(bus.bus_fault());
    bus.clear_bus_fault();
    bus.write16(0x6000_0000, 0x55AA);
    assert!(bus.bus_fault());
}

#[test]
fn rom_write_silently_ignored() {
    let mut bus = Bus::new();
    bus.write8(0x0000_1000, 0xAA);
    bus.write16(0x0000_1000, 0x55AA);
    bus.write32(0x0000_0000, 0xDEAD_BEEF);
    assert!(!bus.bus_fault(), "ROM writes must not fault");
}

#[test]
fn xip_ctrl_write_round_trip() {
    let mut bus = Bus::new();
    bus.write32(XIP_CTRL_BASE + 0x004, 0xDEAD_BEEF);
    let _ = bus.read32(XIP_CTRL_BASE + 0x004);
}

#[test]
fn ssi_write_read_round_trip() {
    let mut bus = Bus::new();
    bus.write32(0x1800_0000 + 0x14, 0x1234);
    let _ = bus.read32(0x1800_0000 + 0x14);
}

#[test]
fn uart0_imsc_alias_xor_set_clr() {
    let mut bus = Bus::new();
    bus.write32(RESETS_CLR, 1u32 << 22);
    let imsc = UART0_BASE + 0x038;
    bus.write32(imsc, 0x0);
    bus.write32(imsc + APB_SET_OFFSET, 0x10);
    let after_set = bus.read32(imsc);
    assert_eq!(after_set & 0x10, 0x10);
    bus.write32(imsc + APB_XOR_OFFSET, 0x10);
    let after_xor = bus.read32(imsc);
    assert_eq!(after_xor & 0x10, 0);
    bus.write32(imsc + APB_SET_OFFSET, 0xF0);
    bus.write32(imsc + APB_CLR_OFFSET, 0x10);
    let after_clr = bus.read32(imsc);
    assert_eq!(after_clr & 0xF0, 0xE0);
}

#[test]
fn pwm_csr_alias_paths() {
    let mut bus = Bus::new();
    bus.write32(RESETS_CLR, 1u32 << 14);
    let csr0 = PWM_BASE;
    bus.write32(csr0 + APB_SET_OFFSET, 0x1);
    bus.write32(csr0 + APB_XOR_OFFSET, 0x1);
    bus.write32(csr0 + APB_CLR_OFFSET, 0x1);
}

#[test]
fn dma_alias_paths() {
    let mut bus = Bus::new();
    bus.write32(RESETS_CLR, 1u32 << 2);
    let inte = DMA_BASE + 0x400;
    bus.write32(inte + APB_SET_OFFSET, 0x1);
    bus.write32(inte + APB_XOR_OFFSET, 0x1);
    bus.write32(inte + APB_CLR_OFFSET, 0x1);
}

#[test]
fn watchdog_alias_paths() {
    let mut bus = Bus::new();
    bus.write32(RESETS_CLR, 1u32 << 24);
    let watchdog_inte = WATCHDOG_BASE;
    bus.write32(watchdog_inte + APB_SET_OFFSET, 0x0);
    bus.write32(watchdog_inte + APB_XOR_OFFSET, 0x0);
    bus.write32(watchdog_inte + APB_CLR_OFFSET, 0x0);
}

#[test]
fn spi_sspdr_halfword_roundtrip() {
    let mut bus = Bus::new();
    bus.write32(RESETS_CLR, 1u32 << 16);
    let sspdr = SPI0_BASE + 0x008;
    bus.write32(SPI0_BASE + 0x004, 0x02);
    let _ = bus.read16(sspdr);
    bus.write16(sspdr, 0x55AA);
    bus.write8(sspdr, 0x42);
}

#[test]
fn i2c_data_cmd_narrow_reads_zero_extend() {
    let mut bus = Bus::new();
    bus.write32(RESETS_CLR, 1u32 << 3);
    let cmd = I2C0_BASE + 0x10;
    let _ = bus.read16(cmd);
    let _ = bus.read8(cmd);
    bus.write16(cmd, 0x55AA);
    bus.write8(cmd, 0x42);
}

#[test]
fn i2c1_data_cmd_byte_access() {
    let mut bus = Bus::new();
    bus.write32(RESETS_CLR, 1u32 << 4);
    let cmd = I2C1_BASE + 0x10;
    let _ = bus.read8(cmd);
    bus.write8(cmd, 0x42);
}

#[test]
fn adc_fifo_byte_read_narrow_path() {
    let mut bus = Bus::new();
    bus.write32(RESETS_CLR, 1u32 << 0);
    let fifo = ADC_BASE + 0x0C;
    let _ = bus.read8(fifo);
    let _ = bus.read16(fifo);
}

#[test]
fn uart1_dr_byte_access() {
    let mut bus = Bus::new();
    bus.write32(RESETS_CLR, 1u32 << 23);
    let dr = UART1_BASE;
    let _ = bus.read8(dr);
    let _ = bus.read16(dr);
    bus.write8(dr, 0x41);
}

#[test]
fn spi1_halfword_access() {
    let mut bus = Bus::new();
    bus.write32(RESETS_CLR, 1u32 << 17);
    let sspdr = SPI1_BASE + 0x008;
    bus.write32(SPI1_BASE + 0x004, 0x02);
    let _ = bus.read16(sspdr);
    bus.write16(sspdr, 0x4242);
}

#[test]
fn pio_txf_byte_replicates_into_word() {
    let mut bus = Bus::new();
    bus.write32(RESETS_CLR, 1u32 << 10);
    bus.write32(PIO0_BASE, 0x1);
    bus.write8(PIO0_BASE + 0x010, 0x42);
    let popped = bus.pio[0].pop_tx(0);
    assert_eq!(popped, Some(0x4242_4242));
    bus.write16(PIO0_BASE + 0x010, 0xABCD);
    assert_eq!(bus.pio[0].pop_tx(0), Some(0xABCD_ABCD));
}

#[test]
fn pio_non_txf_narrow_write_dropped() {
    let mut bus = Bus::new();
    bus.write32(RESETS_CLR, 1u32 << 10);
    bus.write8(PIO0_BASE, 0xFF);
    bus.write16(PIO0_BASE, 0xFFFF);
}

#[test]
fn sio_byte_halfword_read_collapses_to_word_lane() {
    let mut bus = Bus::new();
    bus.write32(SIO_BASE + 0x010, 0xAABB_CCDD);
    for off in 0..4u32 {
        let _ = bus.read8(SIO_BASE + 0x010 + off);
    }
    let _ = bus.read16(SIO_BASE + 0x010);
    let _ = bus.read16(SIO_BASE + 0x012);
}

#[test]
fn sio_byte_write_rmw_into_gpio_out() {
    let mut bus = Bus::new();
    bus.write32(SIO_BASE + 0x010, 0x0000_0000);
    bus.write8(SIO_BASE + 0x010, 0x42);
    let after = bus.read32(SIO_BASE + 0x010);
    assert_eq!(after & 0xFF, 0x42);
}

#[test]
fn ppb_byte_write_to_shpr3_rmw() {
    let mut bus = Bus::new();
    bus.write8(0xE000_ED20 + 3, 0xC0);
    let v = bus.read32(0xE000_ED20);
    assert_eq!((v >> 24) & 0xFF, 0xC0);
}

#[test]
fn ppb_byte_write_to_nvic_iser0() {
    let mut bus = Bus::new();
    bus.write8(0xE000_E100, 0x04);
    let v = bus.read32(0xE000_E100);
    assert_eq!(v & (1 << 2), 1 << 2);
}

#[test]
fn ppb_halfword_read_systick_csr() {
    let mut bus = Bus::new();
    bus.write32(0xE000_E010, 0x7);
    let _ = bus.read16(0xE000_E010);
    let _ = bus.read8(0xE000_E010);
}

#[test]
fn ppb_byte_write_systick_csr() {
    let mut bus = Bus::new();
    bus.write8(0xE000_E010, 0x07);
    let v = bus.read32(0xE000_E010);
    assert_eq!(v & 0x7, 0x7);
}

#[test]
fn ppb_shpr2_svcall_byte_round_trip() {
    let mut ppb = Ppb::default();
    ppb.write32(0xE000_ED1C, 0xC0 << 24);
    assert_eq!(ppb.read32(0xE000_ED1C), 0xC0 << 24);
    assert_eq!(ppb.shpr[7], 0xC0);
}

#[test]
fn ppb_icsr_pendsv_set_then_clr_independently() {
    let mut ppb = Ppb::default();
    ppb.write32(0xE000_ED04, 1 << 28);
    assert_ne!(ppb.icsr & (1 << 28), 0);
    ppb.write32(0xE000_ED04, 1 << 27);
    assert_eq!(ppb.icsr & (1 << 28), 0);
}

#[test]
fn ppb_icsr_pendst_clr_clears_set() {
    let mut ppb = Ppb::default();
    ppb.write32(0xE000_ED04, 1 << 26);
    assert_ne!(ppb.icsr & (1 << 26), 0);
    ppb.write32(0xE000_ED04, 1 << 25);
    assert_eq!(ppb.icsr & (1 << 26), 0);
}

#[test]
fn ppb_unknown_offset_write_ignored() {
    let mut ppb = Ppb::default();
    ppb.write32(0xE000_E000, 0xDEAD_BEEF);
    assert_eq!(ppb.read32(0xE000_E000), 0);
}

#[test]
fn fifo_st_w1c_wof_only_keeps_roe() {
    let mut bus = Bus::new();
    bus.set_active_core(0);
    bus.sio.set_handshake_armed(false);
    let _ = bus.read32(SIO_BASE + 0x058);
    for i in 0..9u32 {
        bus.write32(SIO_BASE + 0x054, i);
    }
    let st_before = bus.read32(SIO_BASE + 0x050);
    assert_ne!(st_before & 0x4, 0, "WOF must be set");
    assert_ne!(st_before & 0x8, 0, "ROE must be set");
    bus.write32(SIO_BASE + 0x050, 0x4);
    let st_after = bus.read32(SIO_BASE + 0x050);
    assert_eq!(st_after & 0x4, 0, "WOF cleared");
    assert_ne!(st_after & 0x8, 0, "ROE remains");
}

#[test]
fn fifo_st_w1c_roe_only_keeps_wof() {
    let mut bus = Bus::new();
    bus.set_active_core(0);
    bus.sio.set_handshake_armed(false);
    let _ = bus.read32(SIO_BASE + 0x058);
    for i in 0..9u32 {
        bus.write32(SIO_BASE + 0x054, i);
    }
    bus.write32(SIO_BASE + 0x050, 0x8);
    let st_after = bus.read32(SIO_BASE + 0x050);
    assert_ne!(st_after & 0x4, 0, "WOF stays");
    assert_eq!(st_after & 0x8, 0, "ROE cleared");
}

#[test]
fn div_csr_dirty_after_unsigned_write_clears_after_two_reads() {
    let mut bus = Bus::new();
    bus.write32(SIO_BASE + 0x060, 100);
    bus.write32(SIO_BASE + 0x064, 7);
    let csr = bus.read32(SIO_BASE + 0x078);
    assert_eq!(csr & 0x3, 0x3, "ready|dirty after divisor write");
    let _ = bus.read32(SIO_BASE + 0x070);
    let _ = bus.read32(SIO_BASE + 0x074);
    let csr2 = bus.read32(SIO_BASE + 0x078);
    assert_eq!(csr2 & 0x3, 0x1, "dirty cleared after pair of reads");
}

#[test]
fn interp_via_bus_pop_lane_routes_through_compute() {
    let mut bus = Bus::new();
    bus.write32(SIO_BASE + 0x0AC, 31 << 10);
    bus.write32(SIO_BASE + 0x080, 50);
    bus.write32(SIO_BASE + 0x088, 7);
    let pop_lane0 = bus.read32(SIO_BASE + 0x094);
    assert_eq!(pop_lane0, 57);
    let peek_lane0 = bus.read32(SIO_BASE + 0x0A0);
    assert_eq!(peek_lane0, 57);
}

#[test]
fn rom_read32_out_of_range_falls_through_to_unmapped_fault() {
    let mut bus = Bus::new();
    let v = bus.read32(0x0000_3FFE);
    assert_eq!(v, 0);
    assert!(bus.bus_fault());
}

#[test]
fn sram_read32_out_of_range_faults() {
    let mut bus = Bus::new();
    let v = bus.read32(0x2004_2000);
    assert_eq!(v, 0);
    assert!(bus.bus_fault());
}

#[test]
fn sram_read16_out_of_range_faults() {
    let mut bus = Bus::new();
    let v = bus.read16(0x2004_2000);
    assert_eq!(v, 0);
    assert!(bus.bus_fault());
}

#[test]
fn xip_sram_byte_halfword_word_round_trip() {
    let mut bus = Bus::new();
    bus.write32(XIP_SRAM_BASE + 0x100, 0xDEAD_BEEF);
    assert_eq!(bus.read32(XIP_SRAM_BASE + 0x100), 0xDEAD_BEEF);
    bus.write16(XIP_SRAM_BASE + 0x104, 0xCAFE);
    assert_eq!(bus.read16(XIP_SRAM_BASE + 0x104), 0xCAFE);
    bus.write8(XIP_SRAM_BASE + 0x108, 0x5A);
    assert_eq!(bus.read8(XIP_SRAM_BASE + 0x108), 0x5A);
}

#[test]
fn sram_write8_past_end_faults() {
    let mut bus = Bus::new();
    bus.write8(0x2004_3000, 0x55);
    assert!(bus.bus_fault());
}

#[test]
fn force_uart1_into_reset_then_narrow_read_returns_zero() {
    let mut bus = Bus::new();
    bus.write32(RESETS_BASE + APB_SET_OFFSET, 1u32 << 23);
    assert_eq!(bus.read32(UART1_BASE + 0x024), 0);
    bus.write32(UART1_BASE + 0x024, 0xAA);
    assert_eq!(bus.read32(UART1_BASE + 0x024), 0);
}

#[test]
fn tick_dma_no_active_channels_is_noop() {
    let mut bus = Bus::new();
    bus.write32(RESETS_CLR, 1u32 << 2);
    bus.tick_dma();
}

#[test]
fn bus_fault_addr_records_first_fault_address() {
    let mut bus = Bus::new();
    let _ = bus.read32(0x6000_1234);
    assert!(bus.bus_fault());
    let addr = bus.bus_fault_addr();
    assert_ne!(addr, 0);
}
