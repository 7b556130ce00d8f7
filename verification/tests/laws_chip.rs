use rp2040_emu::bus::sio::Sio;
use rp2040_emu::bus::PIO0_BASE;
use rp2040_emu::fixtures::{arm_systick, prime_handshake_to_seq, run_hot_loop, seed_nop_program, toggle_emulator};
use rp2040_emu::{Config, Emulator, EmulatorBuilder, EmulatorError, ExecutionModel, WorkerName};

#[test]
fn step_returns_the_clock_delta() {
    for quantum in [1u32, 3, 64] {
        let mut emu = EmulatorBuilder::new(Config::default()).step_quantum(quantum).build().unwrap();
        seed_nop_program(&mut emu);
        for _ in 0..3 {
            let before = emu.cycles();
            let n = emu.step().unwrap();
            assert_eq!(emu.cycles() - before, n);
            assert!(n >= quantum as u64 && n < quantum as u64 + 58);
        }
    }
}

#[test]
fn quantum_of_one_is_one_instruction() {
    let mut emu = EmulatorBuilder::new(Config::default()).step_quantum(1).build().unwrap();
    seed_nop_program(&mut emu);
    emu.bus.write16(0x2000_1002, 0xB40F);
    assert_eq!(emu.step().unwrap(), 1);
    assert_eq!(emu.cores[0].regs.pc(), 0x2000_1002);
    assert_eq!(emu.step().unwrap(), 5);
    assert_eq!(emu.cores[0].regs.pc(), 0x2000_1004);
}

#[test]
fn one_long_quantum_is_many_short_ones() {
    for n in [1u32, 2, 7, 8, 30] {
        let mut short = toggle_emulator(1);
        for _ in 0..n {
            short.step().unwrap();
        }
        let mut long = toggle_emulator(n);
        long.step().unwrap();
        assert_eq!(short.cycles(), long.cycles());
        assert_eq!(short.bus.pio[0].sms[0].pc, long.bus.pio[0].sms[0].pc);
        assert_eq!(short.bus.pio[0].pad_out, long.bus.pio[0].pad_out);
        assert_eq!(short.bus.pio[0].pad_oe, long.bus.pio[0].pad_oe);
    }
}

#[test]
fn pio_ticks_add_up() {
    let mut parts = toggle_emulator(1);
    let mut whole = toggle_emulator(1);
    parts.bus.tick_pio(3);
    parts.bus.tick_pio(4);
    whole.bus.tick_pio(7);
    assert_eq!(parts.bus.pio[0].sms[0].pc, whole.bus.pio[0].sms[0].pc);
    assert_eq!(parts.bus.pio[0].pad_out, whole.bus.pio[0].pad_out);
}

#[test]
fn core_that_rewrites_its_own_code_runs_the_new_code() {
    let mut emu = EmulatorBuilder::new(Config::default()).step_quantum(1).build().unwrap();
    seed_nop_program(&mut emu);
    emu.bus.write16(0x2000_1000, 0x3001);
    emu.bus.write16(0x2000_1002, 0x8011);
    emu.bus.write16(0x2000_1004, 0xE7FC);
    emu.cores[0].regs.r[1] = 0x3020;
    emu.cores[0].regs.r[2] = 0x2000_1000;
    for _ in 0..3 {
        emu.step().unwrap();
    }
    assert_eq!(emu.cores[0].regs.r[0], 1);
    assert_eq!(emu.cores[0].regs.pc(), 0x2000_1000);
    emu.step().unwrap();
    assert_eq!(emu.cores[0].regs.r[0], 0x21);
}

#[test]
fn loaded_image_replaces_cached_code() {
    let mut emu = EmulatorBuilder::new(Config::default()).step_quantum(1).build().unwrap();
    emu.load_image(0x2000_1000, &[0x01, 0x30, 0xFD, 0xE7]);
    emu.cores[0].regs.set_pc(0x2000_1000);
    emu.step().unwrap();
    assert_eq!(emu.cores[0].regs.r[0], 1);
    emu.load_image(0x2000_1000, &[0x40, 0x30, 0xFD, 0xE7]);
    emu.cores[0].regs.set_pc(0x2000_1000);
    emu.step().unwrap();
    assert_eq!(emu.cores[0].regs.r[0], 0x41);
    emu.poke(0x2000_1000, 0xE7FD_3080);
    emu.cores[0].regs.set_pc(0x2000_1000);
    emu.step().unwrap();
    assert_eq!(emu.cores[0].regs.r[0], 0xC1);
}

#[test]
fn peek_sees_poke_and_agrees_with_a_read() {
    let mut emu = Emulator::new(Config::default());
    emu.poke(0x2000_0010, 0x0BAD_CAFE);
    assert_eq!(emu.peek(0x2000_0010), 0x0BAD_CAFE);
    assert_eq!(emu.bus.read32(0x2000_0010), 0x0BAD_CAFE);
    emu.load_flash(&[1, 2, 3, 4]);
    assert_eq!(emu.peek(0x1000_0000), 0x0403_0201);
    assert_eq!(emu.peek(PIO0_BASE), 0);
}

#[test]
fn image_reads_back() {
    let mut emu = Emulator::new(Config::default());
    let data: Vec<u8> = (0..=255).collect();
    emu.load_image(0x2000_0301, &data);
    for i in 0..256u32 {
        assert_eq!(emu.bus.read8(0x2000_0301 + i) as u32, i);
    }
}

#[test]
fn driven_pins_read_back() {
    let mut emu = Emulator::new(Config::default());
    for pin in 0..30u8 {
        emu.gpio_write(pin, true);
        assert!(emu.gpio_read(pin));
        emu.gpio_write(pin, false);
        assert!(!emu.gpio_read(pin));
    }
    emu.gpio_write(30, true);
    assert!(!emu.gpio_read(30));
    assert_eq!(emu.gpio_read_all(), 0);
}

#[test]
fn restart_keeps_memory_only() {
    let mut emu = EmulatorBuilder::new(Config::default()).step_quantum(5).build().unwrap();
    seed_nop_program(&mut emu);
    emu.step().unwrap();
    emu.bus.external_gpio_in_mask = 0xFF;
    emu.bus.irq_pending = 1;
    emu.reset();
    assert_eq!(emu.cycles(), 0);
    assert_eq!(emu.step_quantum, 5);
    assert_eq!(emu.bus.external_gpio_in_mask, 0);
    assert_eq!(emu.bus.irq_pending(), 0);
    assert_eq!(emu.peek(0x2000_1000), 0xBF00_BF00);
}

#[test]
fn run_reaches_its_goal() {
    let mut emu = EmulatorBuilder::new(Config::default()).step_quantum(8).build().unwrap();
    seed_nop_program(&mut emu);
    assert_eq!(emu.run(0).unwrap(), 0);
    assert_eq!(emu.run(20).unwrap(), 24);
    emu.cores[0].halt();
    assert_eq!(emu.run(20).unwrap(), 0);
}

#[test]
fn event_without_a_waiter_stays() {
    let mut emu = EmulatorBuilder::new(Config::default()).step_quantum(1).build().unwrap();
    seed_nop_program(&mut emu);
    emu.bus.signal_sev();
    emu.step().unwrap();
    assert_eq!(emu.bus.event_flag, [true, true]);
    emu.bus.wfe_waiting[1] = true;
    emu.step().unwrap();
    assert_eq!(emu.bus.event_flag, [true, false]);
    assert!(!emu.bus.wfe_waiting[1]);
}

#[test]
fn priming_reaches_each_step() {
    for target in 0..=5u8 {
        let mut sio = Sio::new();
        prime_handshake_to_seq(&mut sio, target);
        assert_eq!(sio.handshake_seq(), target);
    }
    let mut sio = Sio::new();
    prime_handshake_to_seq(&mut sio, 5);
    sio.write32(0x054, 0x1000_0201, 0);
    let launch = sio.take_pending_launch().expect("a launch was asked for");
    assert_eq!((launch.vtor, launch.sp, launch.entry), (0x2004_0000, 0x2001_0000, 0x1000_0201));
}

#[test]
fn division_identities() {
    let mut sio = Sio::new();
    sio.write32(0x060, 100, 0);
    sio.write32(0x064, 7, 0);
    assert_eq!(sio.read32(0x074, 0), 2);
    assert_eq!(sio.read32(0x070, 0), 14);
    sio.write32(0x068, (-100i32) as u32, 1);
    sio.write32(0x06C, 7, 1);
    assert_eq!(sio.read32(0x074, 1) as i32, -2);
    assert_eq!(sio.read32(0x070, 1) as i32, -14);
}

#[test]
fn hot_loop_counts_every_second_instruction() {
    for n in [0u32, 1, 2, 9, 10, 301] {
        let (cpu, _) = run_hot_loop(n);
        assert_eq!(cpu.regs.r[0], (n + 1) / 2);
        assert_eq!(cpu.regs.pc(), if n % 2 == 0 { 0x2000_0000 } else { 0x2000_0002 });
    }
}

#[test]
fn armed_systick_fires_on_every_clock() {
    for core in 0..2 {
        let mut emu = Emulator::new(Config::default());
        arm_systick(&mut emu, core);
        for _ in 0..5 {
            assert!(emu.bus.systicks[core].tick());
        }
        assert!(!emu.bus.systicks[1 - core].is_enabled());
    }
}

#[test]
fn pin_alternates_whatever_the_quantum() {
    for n in [1u32, 2, 5, 256] {
        let mut short = toggle_emulator(1);
        for _ in 0..n {
            assert_eq!(short.step().unwrap(), 1);
        }
        let mut long = toggle_emulator(n);
        assert_eq!(long.step().unwrap(), n as u64);
        for emu in [&short, &long] {
            assert_eq!(emu.bus.pio[0].pad_out & 1, n % 2);
            assert_eq!(emu.cores[0].regs.pc(), 0x2000_1000 + 2 * n);
            assert_eq!(emu.cycles(), n as u64);
        }
    }
}

#[test]
fn largest_quantum_is_not_cut() {
    let mut emu = EmulatorBuilder::new(Config::default()).step_quantum(u32::MAX).build().unwrap();
    assert_eq!(emu.step_quantum, u32::MAX);
    emu.cores[0].halt();
    assert_eq!(emu.step().unwrap(), 0);
}

#[test]
fn threaded_model_takes_three_workers() {
    for n in 0..5usize {
        let out = EmulatorBuilder::new(Config::default()).execution(ExecutionModel::Threaded).workers(n).build();
        assert_eq!(out.is_ok(), n >= 3);
        assert!(EmulatorBuilder::new(Config::default()).workers(n).build().is_ok());
    }
}

#[test]
fn models_agree_on_a_quantum() {
    let mut serial = EmulatorBuilder::new(Config::default()).step_quantum(9).build().unwrap();
    let mut threaded = EmulatorBuilder::new(Config::default())
        .step_quantum(9)
        .execution(ExecutionModel::Threaded)
        .build()
        .unwrap();
    seed_nop_program(&mut serial);
    seed_nop_program(&mut threaded);
    assert_eq!(serial.run_quantum().unwrap(), 9);
    assert_eq!(threaded.run_quantum().unwrap(), 9);
    assert_eq!(serial.run(20).unwrap(), threaded.run(20).unwrap());
    assert_eq!(serial.cycles(), threaded.cycles());
    assert_eq!(serial.cores[0].regs, threaded.cores[0].regs);
    assert_eq!(threaded.step(), Err(EmulatorError::NotSupportedInThreadedMode));
}

#[test]
fn first_failure_sticks() {
    let mut emu = EmulatorBuilder::new(Config::default()).execution(ExecutionModel::Threaded).build().unwrap();
    emu.record_timeout(WorkerName::Core1, 250);
    let timeout = EmulatorError::BarrierTimeout { which: WorkerName::Core1, elapsed_ms: 250 };
    assert_eq!(emu.step(), Err(timeout));
    assert_eq!(emu.run(0), Err(EmulatorError::BarrierTimeout { which: WorkerName::Core1, elapsed_ms: 250 }));
    emu.record_panic(WorkerName::Core0, "overflow".to_string());
    for _ in 0..2 {
        let panicked = EmulatorError::WorkerPanicked { which: WorkerName::Core0, message: "overflow".to_string() };
        assert_eq!(emu.run_quantum(), Err(panicked));
    }
    emu.reset();
    assert!(emu.run(10).is_err());
    assert_eq!(emu.cycles(), 0);
}

#[test]
fn injected_panic_waits_for_a_quantum() {
    let mut emu = EmulatorBuilder::new(Config::default()).execution(ExecutionModel::Threaded).build().unwrap();
    emu.inject_panic_for_testing(WorkerName::Coord);
    assert_eq!(emu.run(0), Ok(0));
    assert_eq!(emu.step(), Err(EmulatorError::NotSupportedInThreadedMode));
    let expected = EmulatorError::WorkerPanicked { which: WorkerName::Coord, message: "injected panic".to_string() };
    assert_eq!(emu.run(5), Err(expected));
    let mut serial = Emulator::new(Config::default());
    serial.inject_panic_for_testing(WorkerName::Core0);
    assert!(serial.run_quantum().is_ok());
}

#[test]
fn hot_loop_fills_two_slots_and_leaves_them() {
    let (after_two, _) = run_hot_loop(2);
    assert_eq!(after_two.decode_cache[0].tag, 0x2000_0000);
    assert_eq!((after_two.decode_cache[0].hw0, after_two.decode_cache[1].hw0), (0x3001, 0xE7FD));
    assert_eq!(after_two.decode_cache[1].tag, 0x2000_0002);
    let (later, _) = run_hot_loop(57);
    assert_eq!(later.decode_cache, after_two.decode_cache);
}

#[test]
fn systick_counts_the_cycles_of_its_own_core() {
    let mut emu = EmulatorBuilder::new(Config::default()).step_quantum(64).build().unwrap();
    seed_nop_program(&mut emu);
    for core in 0..2 {
        emu.bus.systicks[core].write32(0x014, 1000);
        emu.bus.systicks[core].write32(0x018, 0);
        emu.bus.systicks[core].write32(0x010, 1);
    }
    assert!(emu.core_at(1).is_halted());
    let n = emu.step().unwrap() as u32;
    assert_eq!(emu.bus.systicks[0].cvr, 1000 - (n - 1));
    assert_eq!(emu.bus.systicks[1].cvr, 0);
    assert_eq!(emu.bus.systicks[1].csr, 1);
}

#[test]
fn systick_of_a_waiting_core_stands_still() {
    let mut emu = EmulatorBuilder::new(Config::default()).step_quantum(64).build().unwrap();
    seed_nop_program(&mut emu);
    emu.bus.systicks[0].write32(0x014, 1000);
    emu.bus.systicks[0].write32(0x010, 1);
    emu.bus.wfe_waiting[0] = true;
    emu.step().unwrap();
    assert_eq!(emu.bus.systicks[0].cvr, 0);
    emu.bus.wfe_waiting[0] = false;
    let n = emu.step().unwrap() as u32;
    assert_eq!(emu.bus.systicks[0].cvr, 1000 - (n - 1));
}

#[test]
fn handshake_words_come_back_in_order() {
    let mut sio = Sio::new();
    let words = [0u32, 0, 1, 0x2004_0000, 0x2001_0000, 0x1000_0201];
    for (i, w) in words.iter().enumerate() {
        assert!(sio.take_pending_launch().is_none());
        sio.write32(0x054, *w, 0);
        assert_eq!(sio.take_fifo_event(), Some(0));
        assert_eq!(sio.fifo_to[0].count as usize, i + 1);
    }
    for w in words {
        assert_eq!(sio.read32(0x058, 0), w);
    }
    assert!(sio.take_pending_launch().is_some());
}

#[test]
fn cores_can_be_looked_at() {
    let mut emu = Emulator::new(Config::default());
    emu.core_mut(0).regs.r[3] = 7;
    emu.core_mut(1).regs.r[3] = 9;
    assert_eq!(emu.core_at(0).regs.r[3], 7);
    assert_eq!(emu.core_at(1).regs.r[3], 9);
    assert_eq!(emu.core_at(1).core_id, 1);
}
