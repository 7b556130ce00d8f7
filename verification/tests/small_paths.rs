use rp2040_emu::{Config, Emulator, EmulatorBuilder, ROM_SIZE};
use rp2040_emu::cpu::registers::Registers;

#[test]
fn builder_with_flash_loads_it() {
    let cfg = Config::default();
    let flash = vec![0xAAu8; 64];
    let emu = EmulatorBuilder::new(cfg)
        .flash(flash)
        .build()
        .expect("Serial build is infallible");
    let val = emu.bus.memory.xip_read8(0);
    assert_eq!(val, 0xAA, "flash byte 0 should be what we loaded");
}

#[test]
fn load_image_rom_offset_past_rom_size_is_noop() {
    let mut emu = Emulator::new(Config::default());
    let original = emu.bus.memory.rom_read8(0);
    emu.load_image(ROM_SIZE as u32, &[0xDE, 0xAD]);
    assert_eq!(emu.bus.memory.rom_read8(0), original);
}

#[test]
fn tests_run_zero_cycles_returns_zero() {
    let mut emu = Emulator::new(Config::default());
    let consumed = emu.run(0).expect("Serial run is infallible");
    assert_eq!(consumed, 0);
}

#[test]
fn run_both_cores_halted_breaks_early() {
    let mut emu = Emulator::new(Config::default());
    emu.core_mut(0).halt();
    let consumed = emu.run(1000).expect("Serial run is infallible");
    assert_eq!(consumed, 0, "both cores halted → zero cycles consumed");
}

#[test]
fn maybe_wake_core1_no_launch_is_noop() {
    let mut emu = Emulator::new(Config::default());
    assert!(emu.core_at(1).is_halted());
    emu.maybe_wake_core1(0);
    assert!(emu.core_at(1).is_halted());
}

#[test]
fn gpio_read_pin_out_of_range_returns_false() {
    let emu = Emulator::new(Config::default());
    assert!(!emu.gpio_read(30));
    assert!(!emu.gpio_read(255));
}

#[test]
fn gpio_write_pin_out_of_range_is_noop_and_value_false_clears() {
    let mut emu = Emulator::new(Config::default());
    let oe_before = emu.bus.sio.gpio_oe;
    emu.gpio_write(30, true);
    assert_eq!(emu.bus.sio.gpio_oe, oe_before, "pin>=30 must not set OE");
    emu.gpio_write(255, true);
    assert_eq!(emu.bus.sio.gpio_oe, oe_before);
    emu.gpio_write(5, true);
    assert_ne!(emu.bus.sio.gpio_out & (1 << 5), 0);
    emu.gpio_write(5, false);
    assert_eq!(emu.bus.sio.gpio_out & (1 << 5), 0);
}

#[test]
fn step_both_cores_halted_breaks_inner_loop() {
    let mut emu = Emulator::new(Config::default());
    emu.core_mut(0).halt();
    let consumed = emu.step().expect("Serial step is infallible");
    assert_eq!(consumed, 0, "both halted → zero consumed");
}

#[test]
fn registers_primask_control_roundtrip() {
    let mut r = Registers::new();
    r.primask = 1;
    assert_eq!(r.primask, 1);
    r.primask = 0;
    assert_eq!(r.primask, 0);
    r.control = 0b01;
    assert_eq!(r.control & 1, 1);
    r.control = 0;
    assert_eq!(r.control & 1, 0);
}
