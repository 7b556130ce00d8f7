use rp2040_emu::{Config, EmulatorBuilder};

#[test]
fn step_executes_movs_sequence() {
    let mut emu = EmulatorBuilder::new(Config::default())
        .step_quantum(1)
        .build()
        .expect("Serial build is infallible");
    let program_base: u32 = 0x2000_1000;
    let instrs: [u16; 5] = [
        0x2001,
        0x2102,
        0x2203,
        0x2304,
        0x2405,
    ];
    for (i, w) in instrs.iter().enumerate() {
        emu.bus.write16(program_base + (i as u32) * 2, *w);
    }
    emu.cores[0].regs.set_pc(program_base);
    for _ in 0..instrs.len() {
        emu.step().expect("Serial step is infallible");
    }
    assert_eq!(emu.cores[0].regs.r[0], 1);
    assert_eq!(emu.cores[0].regs.r[1], 2);
    assert_eq!(emu.cores[0].regs.r[2], 3);
    assert_eq!(emu.cores[0].regs.r[3], 4);
    assert_eq!(emu.cores[0].regs.r[4], 5);
}

#[test]
fn step_handles_svc_and_return() {
    let mut emu = EmulatorBuilder::new(Config::default())
        .step_quantum(1)
        .build()
        .expect("Serial build is infallible");
    let vtor = 0x2000_0000u32;
    let handler = 0x2000_1000u32;
    let stack_top = 0x2000_8000u32;
    for i in 0..16 {
        emu.bus.write32(vtor + (i as u32) * 4, 0);
    }
    emu.bus.write32(vtor + 11 * 4, handler | 1);
    emu.bus.ppb[0].vtor = vtor;
    let prog = 0x2000_4000u32;
    emu.bus.write16(prog, 0xDF00);
    emu.bus.write16(prog + 2, 0xBF00);
    emu.bus.write16(handler, 0x4770);
    emu.cores[0].regs.msp = stack_top;
    emu.cores[0].regs.set_sp(stack_top);
    emu.cores[0].regs.set_pc(prog);
    emu.step().expect("Serial step is infallible");
    assert_eq!(emu.cores[0].regs.ipsr(), 11);
    assert_eq!(emu.cores[0].regs.pc(), handler);
    emu.step().expect("Serial step is infallible");
    assert_eq!(emu.cores[0].regs.ipsr(), 0);
    assert_eq!(emu.cores[0].regs.pc(), prog + 2);
}

#[test]
fn step_hardfault_on_undefined_then_unwinds() {
    let mut emu = EmulatorBuilder::new(Config::default())
        .step_quantum(1)
        .build()
        .expect("Serial build is infallible");
    let vtor = 0x2000_0000u32;
    let handler = 0x2000_1000u32;
    let stack_top = 0x2000_8000u32;
    for i in 0..16 {
        emu.bus.write32(vtor + (i as u32) * 4, 0);
    }
    emu.bus.write32(vtor + 3 * 4, handler | 1);
    emu.bus.ppb[0].vtor = vtor;
    let prog = 0x2000_4000u32;
    emu.bus.write16(prog, 0xBE00);
    emu.bus.write16(handler, 0x4770);
    emu.cores[0].regs.msp = stack_top;
    emu.cores[0].regs.set_sp(stack_top);
    emu.cores[0].regs.set_pc(prog);
    emu.step().expect("Serial step is infallible");
    assert_eq!(emu.cores[0].regs.ipsr(), 3);
    emu.step().expect("Serial step is infallible");
    assert_eq!(emu.cores[0].regs.ipsr(), 0);
}

#[test]
fn run_advances_pc_over_nops() {
    let mut emu = EmulatorBuilder::new(Config::default())
        .step_quantum(1)
        .build()
        .expect("Serial build is infallible");
    let prog = 0x2000_1000u32;
    for i in 0..10 {
        emu.bus.write16(prog + (i as u32) * 2, 0xBF00);
    }
    emu.cores[0].regs.set_pc(prog);
    let start_cycles = emu.cycles();
    let executed = emu.run(10).expect("Serial run is infallible");
    assert!(
        executed >= 10,
        "run() returned at least the requested cycle count"
    );
    assert_eq!(emu.cores[0].regs.pc(), prog + 20);
    assert_eq!(emu.cycles() - start_cycles, executed);
}

#[test]
fn step_primask_escalates_svc_to_hardfault() {
    let mut emu = EmulatorBuilder::new(Config::default())
        .step_quantum(1)
        .build()
        .expect("Serial build is infallible");
    let vtor = 0x2000_0000u32;
    let svc_handler = 0x2000_1000u32;
    let hf_handler = 0x2000_2000u32;
    let stack_top = 0x2000_8000u32;
    for i in 0..16 {
        emu.bus.write32(vtor + (i as u32) * 4, 0);
    }
    emu.bus.write32(vtor + 3 * 4, hf_handler | 1);
    emu.bus.write32(vtor + 11 * 4, svc_handler | 1);
    emu.bus.ppb[0].vtor = vtor;
    let prog = 0x2000_4000u32;
    emu.bus.write16(prog, 0xDF00);
    emu.cores[0].regs.msp = stack_top;
    emu.cores[0].regs.set_sp(stack_top);
    emu.cores[0].regs.primask = 1;
    emu.cores[0].regs.set_pc(prog);
    emu.step().expect("Serial step is infallible");
    assert_eq!(emu.cores[0].regs.ipsr(), 3);
    assert_eq!(emu.cores[0].regs.pc(), hf_handler);
}

#[test]
fn halted_core0_does_not_freeze_core1() {
    let mut emu = EmulatorBuilder::new(Config::default())
        .step_quantum(4)
        .build()
        .expect("Serial build is infallible");
    let prog = 0x2000_1000u32;
    for i in 0..8u32 {
        emu.bus.write16(prog + i * 2, 0xBF00);
    }
    emu.cores[1].wake();
    emu.cores[1].regs.set_pc(prog);
    emu.cores[1].regs.msp = 0x2002_0000;
    emu.cores[1].regs.r[13] = emu.cores[1].regs.msp;
    emu.cores[0].halt();
    let pc_before = emu.cores[1].regs.pc();
    let consumed = emu.step().expect("Serial step is infallible");
    assert!(consumed > 0, "step() must advance when core 1 is runnable");
    assert!(emu.cores[1].regs.pc() > pc_before, "core 1 PC must advance");
}
