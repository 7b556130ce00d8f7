use rp2040_emu::{Config, ConfigError, DEFAULT_STEP_QUANTUM, Emulator, EmulatorBuilder, EmulatorError, ExecutionModel, ROM_SIZE, WorkerName};

#[test]
fn builder_step_quantum_zero_clamps_and_steps_forward() {
    let mut emu = EmulatorBuilder::new(Config::default())
        .step_quantum(0)
        .build()
        .expect("Serial build infallible");
    assert_eq!(emu.step_quantum, 1);
    let advanced = emu.step().unwrap();
    assert!(advanced >= 1, "step_quantum=1 must advance at least 1");
}

#[test]
fn builder_step_quantum_one_minimum() {
    let mut emu = EmulatorBuilder::new(Config::default())
        .step_quantum(1)
        .build()
        .expect("Serial build infallible");
    assert_eq!(emu.step_quantum, 1);
    let advanced = emu.step().unwrap();
    assert!(advanced <= 4, "tiny quantum bounds advance");
}

#[test]
fn builder_step_quantum_u32_max_passes_through() {
    let emu = EmulatorBuilder::new(Config::default())
        .step_quantum(u32::MAX)
        .build()
        .expect("Serial build infallible");
    assert_eq!(emu.step_quantum, u32::MAX);
}

#[test]
fn builder_default_quantum_and_serial_model() {
    let emu = EmulatorBuilder::new(Config::default())
        .build()
        .expect("Serial build infallible");
    assert_eq!(emu.step_quantum, DEFAULT_STEP_QUANTUM);
    assert_eq!(emu.execution_model(), ExecutionModel::Serial);
}

#[test]
fn builder_chain_ordering_invariant() {
    let a = EmulatorBuilder::new(Config::default())
        .step_quantum(32)
        .execution(ExecutionModel::Serial)
        .build()
        .expect("Serial");
    let b = EmulatorBuilder::new(Config::default())
        .execution(ExecutionModel::Serial)
        .step_quantum(32)
        .build()
        .expect("Serial");
    assert_eq!(a.step_quantum, b.step_quantum);
    assert_eq!(a.execution_model(), b.execution_model());
}

#[test]
fn builder_threaded_supported_platform_succeeds() {
    let res = EmulatorBuilder::new(Config::default())
        .execution(ExecutionModel::Threaded)
        .build();
    assert!(res.is_ok(), "Threaded should succeed on x86_64 Win/Linux");
    let emu = res.unwrap();
    assert_eq!(emu.execution_model(), ExecutionModel::Threaded);
}

#[test]
fn builder_threaded_unsupported_platform_errors() {
    let res = EmulatorBuilder::new(Config::default())
        .workers(0)
        .execution(ExecutionModel::Threaded)
        .build();
    assert!(matches!(res, Err(ConfigError::ThreadingUnavailable)));
}

#[test]
fn host_api_run_zero_cycles_returns_zero() {
    let mut emu = Emulator::new(Config::default());
    let n = emu.run(0).expect("Serial run infallible for cycles=0");
    assert_eq!(n, 0);
}

#[test]
fn step_with_both_cores_halted_returns_zero_or_advances_via_alarm() {
    let mut emu = Emulator::new(Config::default());
    emu.cores[0].halt();
    emu.halt_core1();
    let _ = emu.step().expect("Serial step infallible");
    assert!(emu.cores[0].is_halted());
    assert!(emu.cores[1].is_halted());
}

#[test]
fn run_with_only_core0_awake_executes() {
    let mut emu = Emulator::new(Config::default());
    assert!(!emu.cores[0].is_halted());
    assert!(emu.cores[1].is_halted());
    let n = emu.run(64).expect("Serial");
    assert!(n > 0, "core 0 must consume at least one cycle");
}

#[test]
fn run_with_step_quantum_one_iterates() {
    let mut emu = EmulatorBuilder::new(Config::default())
        .step_quantum(1)
        .build()
        .expect("Serial");
    let n = emu.run(2).expect("Serial");
    assert!(n >= 2, "must run at least 2 cycles when budget is 2");
}

#[test]
fn run_quantum_serial_returns_ok() {
    let mut emu = Emulator::new(Config::default());
    let n = emu.run_quantum().expect("Serial run_quantum infallible");
    assert!(n <= emu.step_quantum as u64);
}

#[test]
fn step_serial_path_returns_ok() {
    let mut emu = Emulator::new(Config::default());
    let _ = emu.step().expect("Serial step infallible");
}

#[test]
fn gpio_set_then_get_all_valid_pins() {
    for pin in 0..30u8 {
        let mut emu = Emulator::new(Config::default());
        emu.gpio_write(pin, true);
        assert!(
            emu.gpio_read(pin),
            "pin {pin} should read high after gpio_write(true)"
        );
        emu.gpio_write(pin, false);
        assert!(
            !emu.gpio_read(pin),
            "pin {pin} should read low after gpio_write(false)"
        );
    }
}

#[test]
fn gpio_read_pin_at_or_above_30_returns_false() {
    let emu = Emulator::new(Config::default());
    for pin in [30u8, 31, 50, 100, 200, 255] {
        assert!(!emu.gpio_read(pin), "out-of-range pin {pin} must be false");
    }
}

#[test]
fn gpio_write_pin_at_or_above_30_is_noop() {
    let mut emu = Emulator::new(Config::default());
    let oe_before = emu.bus.sio.gpio_oe;
    let out_before = emu.bus.sio.gpio_out;
    for pin in [30u8, 31, 50, 100, 200, 255] {
        emu.gpio_write(pin, true);
        emu.gpio_write(pin, false);
    }
    assert_eq!(emu.bus.sio.gpio_oe, oe_before, "OE must be untouched");
    assert_eq!(emu.bus.sio.gpio_out, out_before, "OUT must be untouched");
}

#[test]
fn gpio_write_low_value_still_asserts_oe() {
    for pin in 0..30u8 {
        let mut emu = Emulator::new(Config::default());
        emu.gpio_write(pin, false);
        assert_ne!(
            emu.bus.sio.gpio_oe & (1u32 << pin),
            0,
            "OE must be set even for value=false on pin {pin}"
        );
        assert_eq!(
            emu.bus.sio.gpio_out & (1u32 << pin),
            0,
            "OUT must be clear for value=false on pin {pin}"
        );
    }
}

#[test]
fn gpio_read_all_reflects_set_pins() {
    let mut emu = Emulator::new(Config::default());
    emu.gpio_write(0, true);
    emu.gpio_write(7, true);
    emu.gpio_write(15, true);
    emu.gpio_write(29, true);
    let mask = emu.gpio_read_all();
    assert_ne!(mask & 1, 0);
    assert_ne!(mask & (1 << 7), 0);
    assert_ne!(mask & (1 << 15), 0);
    assert_ne!(mask & (1 << 29), 0);
}

#[test]
fn load_image_empty_slice_noop() {
    let mut emu = Emulator::new(Config::default());
    let before_rom = emu.bus.memory.rom_read32(0);
    emu.load_image(0x0000_0000, &[]);
    emu.load_image(0x2000_0000, &[]);
    emu.load_image(0x4000_0000, &[]);
    assert_eq!(emu.bus.memory.rom_read32(0), before_rom);
}

#[test]
fn load_image_unknown_top_nibble_drops_silently() {
    let mut emu = Emulator::new(Config::default());
    let data = [0xDEu8, 0xAD, 0xBE, 0xEF];
    for top in [0x3u32, 0x4, 0x5, 0x6, 0x7, 0x8, 0x9, 0xA, 0xB, 0xC, 0xD, 0xE, 0xF] {
        emu.load_image(top << 28, &data);
    }
    assert_eq!(emu.bus.memory.rom_read8(0), 0);
}

#[test]
fn load_image_rom_overlay_clamps_at_rom_end() {
    let mut emu = Emulator::new(Config::default());
    let offset = (ROM_SIZE - 4) as u32;
    let data = vec![0x77u8; 16];
    emu.load_image(offset, &data);
    assert_eq!(emu.bus.memory.rom_read8(offset), 0x77);
    assert_eq!(emu.bus.memory.rom_read8(offset + 1), 0x77);
    assert_eq!(emu.bus.memory.rom_read8(offset + 2), 0x77);
    assert_eq!(emu.bus.memory.rom_read8(offset + 3), 0x77);
}

#[test]
fn load_image_sram_at_high_offset() {
    let mut emu = Emulator::new(Config::default());
    let data = [0xA1u8, 0xB2, 0xC3, 0xD4];
    emu.load_image(0x2003_0000, &data);
    assert_eq!(emu.bus.memory.sram_read8(0x0003_0000), 0xA1);
    assert_eq!(emu.bus.memory.sram_read8(0x0003_0003), 0xD4);
}

#[test]
fn load_flash_oversize_image_clamps() {
    let mut emu = Emulator::new(Config::default());
    let big = vec![0x55u8; 4 * 1024 * 1024];
    emu.load_flash(&big);
    assert_eq!(emu.bus.memory.xip_read32(0), 0x5555_5555);
    assert_eq!(emu.bus.pending_invalidation_regions, 0);
}

#[test]
fn load_bootrom_oversize_clamps() {
    let mut emu = Emulator::new(Config::default());
    let big = vec![0xC3u8; ROM_SIZE * 4];
    emu.load_bootrom(&big);
    assert_eq!(emu.bus.memory.rom_read8(0), 0xC3);
    assert_eq!(emu.bus.memory.rom_read8(ROM_SIZE as u32 - 1), 0xC3);
    assert_eq!(emu.bus.pending_invalidation_regions, 0);
}

#[test]
fn load_bootrom_exact_size() {
    let mut emu = Emulator::new(Config::default());
    let mut data = vec![0u8; ROM_SIZE];
    data[0] = 0x12;
    data[ROM_SIZE - 1] = 0x34;
    emu.load_bootrom(&data);
    assert_eq!(emu.bus.memory.rom_read8(0), 0x12);
    assert_eq!(emu.bus.memory.rom_read8(ROM_SIZE as u32 - 1), 0x34);
}

#[test]
fn load_bootrom_empty_noop() {
    let mut emu = Emulator::new(Config::default());
    emu.load_bootrom(&[]);
    assert_eq!(emu.bus.memory.rom_read8(0), 0);
}

#[test]
fn load_flash_empty_noop() {
    let mut emu = Emulator::new(Config::default());
    emu.load_flash(&[]);
    assert_eq!(emu.bus.memory.xip_read32(0), 0);
}

#[test]
fn inject_panic_core0_surfaces_as_error() {
    let mut emu = EmulatorBuilder::new(Config::default())
        .execution(ExecutionModel::Threaded)
        .build()
        .expect("Threaded build must succeed");
    emu.inject_panic_for_testing(WorkerName::Core0);
    let r = emu.run_quantum();
    assert!(matches!(
        r,
        Err(EmulatorError::WorkerPanicked {
            which: WorkerName::Core0,
            ..
        })
    ));
}

#[test]
fn inject_panic_core1_surfaces_as_error() {
    let mut emu = EmulatorBuilder::new(Config::default())
        .execution(ExecutionModel::Threaded)
        .build()
        .expect("Threaded build must succeed");
    emu.inject_panic_for_testing(WorkerName::Core1);
    let r = emu.run_quantum();
    assert!(matches!(
        r,
        Err(EmulatorError::WorkerPanicked {
            which: WorkerName::Core1,
            ..
        })
    ));
}

#[test]
fn inject_panic_coord_surfaces_as_error() {
    let mut emu = EmulatorBuilder::new(Config::default())
        .execution(ExecutionModel::Threaded)
        .build()
        .expect("Threaded build must succeed");
    emu.inject_panic_for_testing(WorkerName::Coord);
    let r = emu.run_quantum();
    assert!(matches!(
        r,
        Err(EmulatorError::WorkerPanicked {
            which: WorkerName::Coord,
            ..
        })
    ));
}

#[test]
fn step_on_threaded_returns_not_supported() {
    let mut emu = EmulatorBuilder::new(Config::default())
        .execution(ExecutionModel::Threaded)
        .build()
        .expect("Threaded build");
    assert!(matches!(
        emu.step(),
        Err(EmulatorError::NotSupportedInThreadedMode)
    ));
}

#[test]
fn threaded_post_panic_run_returns_cached_error() {
    let mut emu = EmulatorBuilder::new(Config::default())
        .execution(ExecutionModel::Threaded)
        .build()
        .expect("Threaded build");
    emu.inject_panic_for_testing(WorkerName::Core0);
    let _ = emu.run_quantum();
    let r = emu.run(100);
    assert!(matches!(
        r,
        Err(EmulatorError::WorkerPanicked {
            which: WorkerName::Core0,
            ..
        })
    ));
}

#[test]
fn threaded_post_panic_step_returns_cached_error() {
    let mut emu = EmulatorBuilder::new(Config::default())
        .execution(ExecutionModel::Threaded)
        .build()
        .expect("Threaded build");
    emu.inject_panic_for_testing(WorkerName::Coord);
    let _ = emu.run_quantum();
    let r = emu.step();
    assert!(matches!(
        r,
        Err(EmulatorError::WorkerPanicked {
            which: WorkerName::Coord,
            ..
        })
    ));
}
