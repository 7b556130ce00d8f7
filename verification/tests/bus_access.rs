use rp2040_emu::bus::{ADC_BASE, Bus, DMA_BASE, I2C0_BASE, I2C1_BASE, PIO0_BASE, PIO1_BASE, PLL_SYS_BASE, PLL_USB_BASE, PWM_BASE, SIO_BASE, SPI0_BASE, SPI1_BASE, SSI_BASE, TIMER_BASE, UART0_BASE, UART1_BASE, WATCHDOG_BASE, XIP_CTRL_BASE, XIP_SRAM_BASE};

#[test]
fn pll_usb_pwr_read_returns_stored_value() {
    let mut bus = Bus::new();
    let pwr = bus.read32(PLL_USB_BASE + 0x04);
    assert_ne!(pwr, 0, "PLL_USB PWR reads the stored register image");
    let _ = bus.read32(PLL_USB_BASE + 0x08);
}

#[test]
fn xip_flash_offset_rejects_non_xip_region_and_alias_over_three() {
    let mut bus = Bus::new();
    bus.load_flash(&[0xAA, 0xBB, 0xCC, 0xDD]);
    let v = bus.read32(0x1E00_0000);
    assert_eq!(v, 0);
    assert!(
        !bus.bus_fault(),
        "region-1 read outside flash must not fault"
    );
}

#[test]
fn pio_offset_translator_covers_all_ranges() {
    let mut bus = Bus::new();
    bus.write32(0x4000_F000, 1u32 << 11);
    let _ = bus.read32(PIO1_BASE);
    let _ = bus.read32(PIO1_BASE + 0x0D4);
    let _ = bus.read32(PIO1_BASE + 0x200);
    bus.write32(PIO1_BASE + 0x300, 0);
}

#[test]
fn xip_flash_offset_past_flash_size_returns_none() {
    let mut bus = Bus::new();
    bus.load_flash(&[0xAA]);
    let v = bus.read32(0x10FF_FFFC);
    assert_eq!(v, 0);
    assert!(!bus.bus_fault());
}

#[test]
fn peek32_covers_sram_xip_sram_and_rom() {
    let mut bus = Bus::new();
    bus.write32(0x2000_0040, 0xCAFE_BABE);
    assert_eq!(bus.peek32(0x2000_0040), 0xCAFE_BABE);
    bus.write32(XIP_SRAM_BASE + 0x10, 0xDEAD_BEEF);
    assert_eq!(bus.peek32(XIP_SRAM_BASE + 0x10), 0xDEAD_BEEF);
    assert_eq!(bus.peek32(0x0000_0100), 0);
}

#[test]
fn poke32_covers_sram_xip_sram_and_rom() {
    let mut bus = Bus::new();
    bus.poke32(0x2000_0040, 0xCAFE_BABE);
    assert_eq!(bus.read32(0x2000_0040), 0xCAFE_BABE);
    bus.poke32(XIP_SRAM_BASE + 0x20, 0xDEAD_BEEF);
    assert_eq!(bus.read32(XIP_SRAM_BASE + 0x20), 0xDEAD_BEEF);
    bus.poke32(0x0000_0100, 0xFFFF_FFFF);
    assert_eq!(bus.peek32(0x0000_0100), 0);
    bus.poke32(0x1500_4000, 0x1234_5678);
    let _ = bus.peek32(0x1500_4000);
}

#[test]
fn note_sram_access_no_contention_when_inactive() {
    let mut bus = Bus::new();
    bus.set_active_core(0);
    let _ = bus.read32(0x2000_0000);
    let _ = bus.read32(0x2000_0000);
    assert_eq!(bus.last_access_cycles(), 1, "no contention when inactive");
}

#[test]
fn xip_sram_boundary_word_succeeds() {
    let mut bus = Bus::new();
    bus.write32(XIP_SRAM_BASE + 0x3FFC, 0x1234_5678);
    assert_eq!(bus.read32(XIP_SRAM_BASE + 0x3FFC), 0x1234_5678);
}

#[test]
fn peripheral_read_while_held_in_reset_returns_zero() {
    let mut bus = Bus::new();
    for base in [
        UART0_BASE,
        UART1_BASE,
        SPI0_BASE,
        SPI1_BASE,
        I2C0_BASE,
        I2C1_BASE,
        TIMER_BASE,
        WATCHDOG_BASE,
        ADC_BASE,
        PWM_BASE,
        DMA_BASE,
    ] {
        bus.write32(base, 0xDEAD_BEEF);
        assert_eq!(bus.read32(base), 0, "base {:#x} must RAZ held", base);
    }
}

#[test]
fn narrow_read_write_while_held_in_reset_is_nopped() {
    let mut bus = Bus::new();
    assert_eq!(bus.read8(UART0_BASE), 0);
    bus.write8(UART0_BASE, 0x42);
    assert_eq!(bus.read8(UART0_BASE), 0);
    assert_eq!(bus.read16(SPI0_BASE + 0x008), 0);
    bus.write16(SPI0_BASE + 0x008, 0xBEEF);
    assert_eq!(bus.read16(I2C0_BASE + 0x010), 0);
}

#[test]
fn clocks_and_pll_write_true_and_false_arms() {
    let mut bus = Bus::new();
    bus.seed_sys_clk_hz(100_000_000);
    bus.write32(0x4000_8000, 0);
    bus.write32(PLL_SYS_BASE + 0x08, 100);
    bus.write32(PLL_SYS_BASE + 0x04, 0);
    bus.write32(PLL_USB_BASE, 0x01);
    bus.write32(PLL_SYS_BASE + 0x20, 0);
    bus.write32(PLL_USB_BASE + 0x30, 0);
    bus.write32(0x4000_8200, 0);
}

#[test]
fn read8_out_of_rom_range_and_wide_peripheral_byte() {
    let mut bus = Bus::new();
    let v = bus.read8(0x0000_8000);
    assert_eq!(v, 0);
    assert!(bus.bus_fault(), "out-of-range ROM byte must fault");
    bus.clear_bus_fault();
    let _ = bus.read8(0x2010_0000);
    assert!(bus.bus_fault(), "SRAM byte past end must fault");
    bus.clear_bus_fault();
    let _ = bus.read8(0x4000_8000);
}

#[test]
fn read16_out_of_rom_and_sram_ranges_fault() {
    let mut bus = Bus::new();
    let _ = bus.read16(0x0000_8000);
    assert!(bus.bus_fault());
    bus.clear_bus_fault();
    let _ = bus.read16(0x2010_0000);
    assert!(bus.bus_fault());
    bus.clear_bus_fault();
    let _ = bus.read16(0x4000_8004);
    let _ = bus.read16(SIO_BASE + 0x012);
    let _ = bus.read16(0xE000_0002);
    let _ = bus.read16(0x7000_0000);
    assert!(bus.bus_fault(), "unmapped halfword must fault");
}

#[test]
fn read32_out_of_range_rom_and_sram_faults() {
    let mut bus = Bus::new();
    let _ = bus.read32(0x0000_8000);
    assert!(bus.bus_fault());
    bus.clear_bus_fault();
    let _ = bus.read32(0x2010_0000);
    assert!(bus.bus_fault());
    bus.clear_bus_fault();
    let _ = bus.read32(0xE000_0000);
    let _ = bus.read32(0x7000_0000);
    assert!(bus.bus_fault());
}

#[test]
fn mmio_trace_all_access_widths_emit_lines() {
    let mut buf: Vec<u8> = Vec::new();
    let mut bus = Bus::new();
    bus.mmio_trace_enabled = true;
    bus.write32(0x2000_0000, 0x11223344);
    bus.write16(0x2000_0004, 0xAABB);
    bus.write8(0x2000_0006, 0xCC);
    let _ = bus.read32(0x2000_0000);
    let _ = bus.read16(0x2000_0004);
    let _ = bus.read8(0x2000_0006);
    for entry in bus.drain_mmio_trace() {
        buf.extend_from_slice(&entry.line());
    }
    let out = String::from_utf8(buf.clone()).unwrap();
    assert!(out.contains("TRACE W 4"));
    assert!(out.contains("TRACE W 2"));
    assert!(out.contains("TRACE W 1"));
    assert!(out.contains("TRACE R 4"));
    assert!(out.contains("TRACE R 2"));
    assert!(out.contains("TRACE R 1"));
}

#[test]
fn write8_region_arms_all_exercised() {
    let mut bus = Bus::new();
    bus.write8(XIP_SRAM_BASE + 0x100, 0x5A);
    assert_eq!(bus.read8(XIP_SRAM_BASE + 0x100), 0x5A);
    bus.write32(0x4000_F000, 1u32 << 11);
    bus.write8(PIO1_BASE, 0xFF);
    bus.write32(0x4000_F000, 1u32 << 10);
    bus.write32(PIO0_BASE, 0x1);
    bus.write8(PIO0_BASE + 0x010, 0x42);
    assert_eq!(
        bus.pio[0].pop_tx(0),
        Some(0x42424242),
        "PIO0 TXF byte write must replicate"
    );
    bus.write32(0x4000_F000, 1u32 << 22);
    bus.write32(UART0_BASE + 0x02C, 1 << 4);
    bus.write32(UART0_BASE + 0x030, 0x101);
    bus.write8(UART0_BASE, 0x30);
    bus.write8(UART0_BASE + 0x2038, 0x20);
}

#[test]
fn write16_region_arms_all_exercised() {
    let mut bus = Bus::new();
    bus.write16(XIP_SRAM_BASE + 0x200, 0xBEEF);
    assert_eq!(bus.read16(XIP_SRAM_BASE + 0x200), 0xBEEF);
    bus.write16(0x2010_0000, 0x1234);
    assert!(bus.bus_fault(), "SRAM write16 past end must fault");
    bus.clear_bus_fault();
    bus.write32(0x4000_F000, 1u32 << 11);
    bus.write16(PIO1_BASE, 0x5555);
    bus.write32(PIO1_BASE, 0x1);
    bus.write16(PIO1_BASE + 0x010, 0xABCD);
    assert_eq!(bus.pio[1].pop_tx(0), Some(0xABCDABCD));
    bus.write32(0x4000_F000, 1u32 << 10);
    bus.write32(PIO0_BASE, 0x1);
    bus.write16(PIO0_BASE + 0x010, 0x1234);
    assert_eq!(bus.pio[0].pop_tx(0), Some(0x12341234));
    bus.write32(0x4000_F000, 1u32 << 16);
    bus.write32(SPI0_BASE + 0x004, 0x02);
    bus.write16(SPI0_BASE + 0x008, 0x1234);
    bus.write16(0x4000_A000, 0xAB);
    bus.write16(0x7000_0000, 0x1234);
    assert!(bus.bus_fault());
    bus.clear_bus_fault();
    bus.write16(0xE000_0002, 0x55);
    bus.write16(SIO_BASE + 0x012, 0x42);
}

#[test]
fn write32_region1_ctrl_ssi_xip_sram() {
    let mut bus = Bus::new();
    bus.write32(XIP_SRAM_BASE + 0x300, 0xABCD_1234);
    assert_eq!(bus.read32(XIP_SRAM_BASE + 0x300), 0xABCD_1234);
    bus.write32(XIP_CTRL_BASE + 0x8, 0xDEADBEEF);
    assert_eq!(bus.read32(XIP_CTRL_BASE + 0x8), 0xDEADBEEF);
    bus.write32(SSI_BASE + 0x4, 0xCAFEF00D);
    assert_eq!(bus.read32(SSI_BASE + 0x4), 0xCAFEF00D);
    bus.write32(0x7000_0000, 0xFFFF_FFFF);
    assert!(bus.bus_fault());
}

#[test]
fn region1_read_each_sub_region() {
    let mut bus = Bus::new();
    bus.write32(XIP_SRAM_BASE, 0x1122_3344);
    assert_eq!(bus.read32(XIP_SRAM_BASE), 0x1122_3344);
    assert_eq!(bus.read8(XIP_SRAM_BASE), 0x44);
    assert_eq!(bus.read16(XIP_SRAM_BASE), 0x3344);
    bus.write32(XIP_CTRL_BASE + 0x4, 0xABCD_1234);
    assert_eq!(bus.read8(XIP_CTRL_BASE + 0x4), 0x34);
    assert_eq!(bus.read16(XIP_CTRL_BASE + 0x4), 0x1234);
    assert_eq!(bus.read8(SSI_BASE + 0x28) & 0x7, 0x6);
    bus.load_flash(&[0xDE, 0xAD, 0xBE, 0xEF]);
    assert_eq!(bus.read8(0x1000_0000), 0xDE);
    assert_eq!(bus.read16(0x1000_0002), 0xEFBE);
}

#[test]
fn nvic_ipr7_sets_priority_for_irqs_28_31() {
    let mut bus = Bus::new();
    let word = 0xC0C0_C0C0;
    bus.write32(0xE000_E41C, word);
    let rb = bus.read32(0xE000_E41C);
    assert_eq!(rb, word & 0xC0C0_C0C0);
}

#[test]
fn sio_fifo_wr_sets_event_flag_via_pending_event() {
    let mut bus = Bus::new();
    bus.set_active_core(0);
    bus.write32(SIO_BASE + 0x054, 0);
    assert!(
        bus.event_flag[0] || bus.event_flag[1],
        "FIFO_WR must bubble pending_fifo_event into event_flag[...]"
    );
}

#[test]
fn all_peripherals_idle_true_fresh_bus() {
    let bus = Bus::new();
    assert!(bus.all_peripherals_idle());
}

#[test]
fn all_peripherals_idle_false_arms_each_peripheral() {
    let mut bus = Bus::new();
    bus.write32(0x4000_F000, 1u32 << 22);
    bus.write32(UART0_BASE + 0x02C, 1 << 4);
    bus.write32(UART0_BASE + 0x030, 0x101);
    bus.write32(UART0_BASE, 0xA5);
    assert!(!bus.all_peripherals_idle());
    let mut bus = Bus::new();
    bus.write32(0x4000_F000, 1u32 << 23);
    bus.write32(UART1_BASE + 0x02C, 1 << 4);
    bus.write32(UART1_BASE + 0x030, 0x101);
    bus.write32(UART1_BASE, 0xA5);
    assert!(!bus.all_peripherals_idle());
    let mut bus = Bus::new();
    bus.write32(0x4000_F000, 1u32 << 16);
    bus.write32(SPI0_BASE, 0x07);
    bus.write32(SPI0_BASE + 0x004, 0x02);
    bus.write32(SPI0_BASE + 0x008, 0x42);
    assert!(!bus.all_peripherals_idle());
    let mut bus = Bus::new();
    bus.write32(0x4000_F000, 1u32 << 17);
    bus.write32(SPI1_BASE, 0x07);
    bus.write32(SPI1_BASE + 0x004, 0x02);
    bus.write32(SPI1_BASE + 0x008, 0x42);
    assert!(!bus.all_peripherals_idle());
    let mut bus = Bus::new();
    bus.write32(0x4000_F000, 1u32 << 3);
    bus.write32(I2C0_BASE + 0x004, 0x55);
    bus.write32(I2C0_BASE + 0x06C, 1);
    bus.write32(I2C0_BASE + 0x010, 0x0);
    assert!(!bus.all_peripherals_idle());
    let mut bus = Bus::new();
    bus.write32(0x4000_F000, 1u32 << 4);
    bus.write32(I2C1_BASE + 0x004, 0x55);
    bus.write32(I2C1_BASE + 0x06C, 1);
    bus.write32(I2C1_BASE + 0x010, 0x0);
    assert!(!bus.all_peripherals_idle());
    let mut bus = Bus::new();
    bus.write32(0x4000_F000, 1);
    bus.write32(ADC_BASE, 1 | (1 << 2));
    assert!(!bus.all_peripherals_idle());
    let mut bus = Bus::new();
    bus.write32(0x4000_F000, 1u32 << 14);
    bus.write32(PWM_BASE + 0xA0, 0x01);
    assert!(!bus.all_peripherals_idle());
    let mut bus = Bus::new();
    bus.write32(0x4000_F000, 1u32 << 21);
    bus.seed_sys_clk_hz(125_000_000);
    bus.write32(TIMER_BASE + 0x10, 10);
    bus.advance_lazy_scheduled(10 * 125);
    assert!(!bus.all_peripherals_idle());
}

#[test]
fn pio_all_idle_toggles_with_sm_enable() {
    let mut bus = Bus::new();
    assert!(bus.pio_all_idle(), "fresh bus has no SM enabled");
    bus.write32(0x4000_F000, 1u32 << 10);
    bus.write32(PIO0_BASE, 0x1);
    assert!(!bus.pio_all_idle(), "SM0 enabled → PIO not idle");
}

#[test]
fn pio_intr_and_ints_reads_use_rp2040_layout() {
    let mut bus = Bus::new();
    bus.write32(0x4000_F000, 1u32 << 10);
    let _ = bus.read32(PIO0_BASE + 0x128);
    let _ = bus.read32(PIO0_BASE + 0x134);
    let _ = bus.read32(PIO0_BASE + 0x140);
    bus.write32(0x4000_F000, 1u32 << 11);
    let _ = bus.read32(PIO1_BASE + 0x128);
    let _ = bus.read32(PIO1_BASE + 0x134);
    let _ = bus.read32(PIO1_BASE + 0x140);
}

#[test]
fn narrow_read8_covers_every_peripheral() {
    let mut bus = Bus::new();
    bus.write32(
        0x4000_F000,
        (1u32 << 22)
            | (1u32 << 23)
            | (1u32 << 16)
            | (1u32 << 17)
            | (1u32 << 3)
            | (1u32 << 4)
            | 1u32,
    );
    let _ = bus.read8(UART0_BASE);
    let _ = bus.read8(UART1_BASE);
    let _ = bus.read8(SPI0_BASE + 0x008);
    let _ = bus.read8(SPI1_BASE + 0x008);
    let _ = bus.read8(I2C0_BASE + 0x010);
    let _ = bus.read8(I2C1_BASE + 0x010);
    let _ = bus.read8(ADC_BASE + 0x00C);
}

#[test]
fn narrow_read16_covers_every_peripheral() {
    let mut bus = Bus::new();
    bus.write32(
        0x4000_F000,
        (1u32 << 22)
            | (1u32 << 23)
            | (1u32 << 16)
            | (1u32 << 17)
            | (1u32 << 3)
            | (1u32 << 4)
            | 1u32,
    );
    let _ = bus.read16(UART0_BASE);
    let _ = bus.read16(UART1_BASE);
    let _ = bus.read16(SPI0_BASE + 0x008);
    let _ = bus.read16(SPI1_BASE + 0x008);
    let _ = bus.read16(I2C0_BASE + 0x010);
    let _ = bus.read16(I2C1_BASE + 0x010);
    let _ = bus.read16(ADC_BASE + 0x00C);
}

#[test]
fn narrow_write_covers_every_peripheral() {
    let mut bus = Bus::new();
    bus.write32(
        0x4000_F000,
        (1u32 << 22)
            | (1u32 << 23)
            | (1u32 << 16)
            | (1u32 << 17)
            | (1u32 << 3)
            | (1u32 << 4)
            | 1u32,
    );
    bus.write32(UART0_BASE + 0x02C, 1 << 4);
    bus.write32(UART0_BASE + 0x030, 0x101);
    bus.write32(UART1_BASE + 0x02C, 1 << 4);
    bus.write32(UART1_BASE + 0x030, 0x101);
    bus.write32(SPI0_BASE + 0x004, 0x02);
    bus.write32(SPI1_BASE + 0x004, 0x02);
    bus.write8(UART0_BASE, 0x11);
    bus.write8(UART1_BASE, 0x22);
    bus.write8(SPI0_BASE + 0x008, 0x33);
    bus.write8(SPI1_BASE + 0x008, 0x44);
    bus.write8(I2C0_BASE + 0x010, 0x55);
    bus.write8(I2C1_BASE + 0x010, 0x66);
    bus.write8(ADC_BASE + 0x00C, 0x77);
    bus.write16(UART0_BASE, 0xAAAA);
    bus.write16(UART1_BASE, 0xBBBB);
    bus.write16(SPI0_BASE + 0x008, 0xCCCC);
    bus.write16(SPI1_BASE + 0x008, 0xDDDD);
    bus.write16(I2C0_BASE + 0x010, 0xEEEE);
    bus.write16(I2C1_BASE + 0x010, 0xFFFF);
    bus.write16(ADC_BASE + 0x00C, 0x0102);
}

#[test]
fn sysinfo_read_covers_chip_id_platform_and_default() {
    let mut bus = Bus::new();
    let chip_id = bus.read32(0x4000_0000);
    assert_eq!(chip_id, 0x0000_0001);
    let platform = bus.read32(0x4000_0004);
    assert_eq!(platform, 0);
    let _ = bus.read32(0x4000_0080);
    bus.write32(0x4000_0000, 0xFFFF_FFFF);
}

#[test]
fn unknown_peripheral_base_roundtrips_and_alias_rmw() {
    let mut bus = Bus::new();
    bus.write32(0x4001_0000, 0x1234);
    assert_eq!(bus.read32(0x4001_0000), 0x1234);
    bus.write32(0x4001_1000, 0x00FF);
    assert_eq!(bus.read32(0x4001_0000), 0x12CB);
    bus.write32(0x4001_2000, 0x00F0);
    assert_eq!(bus.read32(0x4001_0000) & 0xFF, 0xFB);
    bus.write32(0x4001_3000, 0x00F0);
    assert_eq!(bus.read32(0x4001_0000) & 0xFF, 0x0B);
}

#[test]
fn xip_ctrl_non_zero_offset_returns_stored_value() {
    let mut bus = Bus::new();
    bus.write32(XIP_CTRL_BASE + 0x10, 0xDEAD_BEEF);
    assert_eq!(bus.read32(XIP_CTRL_BASE + 0x10), 0xDEAD_BEEF);
}

#[test]
fn rom_narrow_reads_within_bounds() {
    let mut bus = Bus::new();
    bus.load_bootrom(&[0xDE, 0xAD, 0xBE, 0xEF]);
    assert_eq!(bus.read8(0x0000_0000), 0xDE);
    assert_eq!(bus.read16(0x0000_0002), 0xEFBE);
}

#[test]
fn rom_word_read_within_bounds() {
    let mut bus = Bus::new();
    bus.load_bootrom(&[0xDE, 0xAD, 0xBE, 0xEF]);
    assert_eq!(bus.read32(0x0000_0000), 0xEFBE_ADDE);
}

#[test]
fn write8_to_ppb_nvic_word() {
    let mut bus = Bus::new();
    bus.write8(0xE000_E100, 0x04);
    assert_eq!(bus.read32(0xE000_E100) & (1 << 2), 1 << 2);
}

#[test]
fn narrow_and_wide_writes_to_ppb_and_nvic() {
    let mut bus = Bus::new();
    bus.write8(0xE000_ED20, 0x55);
    bus.write16(0xE000_ED20, 0xAAAA);
    bus.write32(0xE000_ED20, 0x1234_5678);
    let _ = bus.read32(0xE000_ED20);
    bus.write16(0xE000_E100, 0x0004);
    bus.write8(0xE000_E101, 0x01);
}

#[test]
fn bus_gpio_in_and_signal_sev() {
    let mut bus = Bus::new();
    bus.gpio_in = 0x42;
    assert_eq!(bus.gpio_in(), 0x42);
    bus.signal_sev();
    assert!(bus.event_flag[0] && bus.event_flag[1]);
}

#[test]
fn bus_clock_accessors() {
    let mut bus = Bus::new();
    bus.seed_sys_clk_hz(100_000_000);
    assert_eq!(bus.sys_clk_hz(), 100_000_000);
    assert_eq!(bus.ref_clk_hz(), 100_000_000);
}

#[test]
fn bus_fault_accessors_and_uart_tx_log_drain() {
    let mut bus = Bus::new();
    let _ = bus.read32(0x7000_0000);
    assert!(bus.bus_fault());
    assert_eq!(bus.bus_fault_addr(), 0x7000_0000);
    bus.clear_bus_fault();
    assert!(!bus.bus_fault());
    let log = bus.drain_uart0_tx_log();
    assert!(log.is_empty());
}

#[test]
fn sio_byte_access_exercises_word_rmw_path() {
    let mut bus = Bus::new();
    bus.write32(SIO_BASE + 0x010, 0x00BB_CCDD);
    assert_eq!(bus.read8(SIO_BASE + 0x010), 0xDD);
    bus.write8(SIO_BASE + 0x010, 0x11);
    assert_eq!(bus.read8(SIO_BASE + 0x010), 0x11);
}

#[test]
fn sram_narrow_writes_past_end_fault() {
    let mut bus = Bus::new();
    bus.write8(0x2010_0000, 0x42);
    assert!(bus.bus_fault());
    bus.clear_bus_fault();
    bus.write16(0x2010_0000, 0xBEEF);
    assert!(bus.bus_fault());
    bus.clear_bus_fault();
    bus.write32(0x2010_0000, 0xDEAD_BEEF);
    assert!(bus.bus_fault());
}

#[test]
fn write8_write16_to_xip_ctrl_silently_ignored() {
    let mut bus = Bus::new();
    bus.write8(XIP_CTRL_BASE, 0x55);
    bus.write16(XIP_CTRL_BASE + 0x2, 0xABCD);
    assert!(!bus.bus_fault(), "writes to XIP_CTRL via narrow are silent");
}

#[test]
fn region1_read_flash_width_match_arms() {
    let mut bus = Bus::new();
    bus.load_flash(&[0x55, 0x66, 0x77, 0x88]);
    assert_eq!(bus.read16(0x1000_0001), 0x7766);
}

#[test]
fn ssi_sr_read_returns_flags() {
    let mut bus = Bus::new();
    assert_eq!(bus.read32(SSI_BASE + 0x28) & 0x7, 0x6);
    let _ = bus.read32(SSI_BASE);
}

#[test]
fn advance_lazy_scheduled_fires_alarm() {
    let mut bus = Bus::new();
    bus.write32(0x4000_F000, 1u32 << 21);
    bus.seed_sys_clk_hz(125_000_000);
    bus.write32(TIMER_BASE + 0x10, 100);
    bus.write32(TIMER_BASE + 0x38, 1);
    bus.advance_lazy_scheduled(100 * 125);
    assert_ne!(bus.irq_pending() & 1, 0);
}

#[test]
fn bus_default_impl() {
    let _b: Bus = Default::default();
}

#[test]
fn collect_dreqs_pio_tx_full_bit_clear() {
    let mut bus = Bus::new();
    bus.write32(0x4000_F000, (1u32 << 10) | (1u32 << 11));
    bus.write32(PIO0_BASE, 0x1);
    for _ in 0..4 {
        bus.write32(PIO0_BASE + 0x010, 0x42);
    }
    let dreqs = bus.collect_dreqs();
    assert_eq!(dreqs & (1 << 0), 0, "PIO0 TX0 DREQ false when FIFO full");
}

#[test]
fn collect_dreqs_covers_every_lane() {
    let mut bus = Bus::new();
    bus.write32(
        0x4000_F000,
        (1u32 << 10)
            | (1u32 << 11)
            | (1u32 << 22)
            | (1u32 << 23)
            | (1u32 << 16)
            | (1u32 << 17)
            | (1u32 << 3)
            | (1u32 << 4)
            | 1u32,
    );
    bus.write32(PIO0_BASE, 0x1);
    bus.write32(PIO1_BASE, 0x1);
    bus.write32(UART0_BASE + 0x030, 0x101);
    bus.write32(UART1_BASE + 0x030, 0x101);
    bus.write32(SPI0_BASE + 0x004, 0x02);
    bus.write32(SPI1_BASE + 0x004, 0x02);
    bus.write32(I2C0_BASE + 0x06C, 1);
    bus.write32(I2C1_BASE + 0x06C, 1);
    bus.write32(ADC_BASE + 0x08, 1 | (1u32 << 3) | (1u32 << 24));
    bus.write32(ADC_BASE, 1 | (1u32 << 3));
    bus.master_cycle = 0;
    bus.seed_sys_clk_hz(125_000_000);
    for _ in 0..500 {
        bus.tick_peripherals(1);
    }
    bus.write32(SPI0_BASE, 0x07);
    bus.write32(SPI0_BASE + 0x004, 0x02 | 0x01);
    bus.write32(SPI0_BASE + 0x008, 0x42);
    bus.write32(SPI1_BASE, 0x07);
    bus.write32(SPI1_BASE + 0x004, 0x02 | 0x01);
    bus.write32(SPI1_BASE + 0x008, 0x42);
    bus.write32(I2C0_BASE + 0x06C, 0);
    bus.write32(I2C0_BASE + 0x004, 0x3C);
    bus.write32(I2C0_BASE + 0x06C, 1);
    bus.write32(I2C0_BASE + 0x010, 1 << 8);
    bus.write32(I2C1_BASE + 0x06C, 0);
    bus.write32(I2C1_BASE + 0x004, 0x3C);
    bus.write32(I2C1_BASE + 0x06C, 1);
    bus.write32(I2C1_BASE + 0x010, 1 << 8);
    bus.write32(PIO0_BASE, 0xF);
    bus.write32(PIO1_BASE, 0xF);
    let dreqs = bus.collect_dreqs();
    assert_ne!(dreqs & (1 << 0), 0, "PIO0 TX0");
    assert_ne!(dreqs & (1 << 1), 0, "PIO0 TX1");
    assert_ne!(dreqs & (1 << 8), 0, "PIO1 TX0");
    assert_ne!(dreqs & (1 << 16), 0, "SPI0 TX");
    assert_ne!(dreqs & (1 << 17), 0, "SPI0 RX");
    assert_ne!(dreqs & (1 << 18), 0, "SPI1 TX");
    assert_ne!(dreqs & (1 << 19), 0, "SPI1 RX");
    assert_ne!(dreqs & (1 << 20), 0, "UART0 TX");
    assert_ne!(dreqs & (1 << 22), 0, "UART1 TX");
    assert_ne!(dreqs & (1 << 32), 0, "I2C0 TX");
    assert_ne!(dreqs & (1 << 33), 0, "I2C0 RX");
    assert_ne!(dreqs & (1 << 34), 0, "I2C1 TX");
    assert_ne!(dreqs & (1 << 35), 0, "I2C1 RX");
    assert_ne!(dreqs & (1 << 36), 0, "ADC FIFO");
    assert_ne!(dreqs & (1 << 63), 0, "FORCE always asserted");
}
