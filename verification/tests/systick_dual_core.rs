use rp2040_emu::{Config, EmulatorBuilder};
use rp2040_emu::fixtures::arm_systick;

const CORE0_PC: u32 = 0x2000_0000;
const CORE1_PC: u32 = 0x2000_0040;
const CORE0_SP: u32 = 0x2004_0000;
const CORE1_SP: u32 = 0x2003_8000;

#[test]
fn both_cores_systick_advance_when_both_running() {
    let mut emu = EmulatorBuilder::new(Config::default())
        .build()
        .expect("Serial build is infallible");
    emu.poke(CORE0_PC, 0xE7FE_E7FE);
    emu.poke(CORE1_PC, 0xE7FE_E7FE);
    emu.core_mut(0).regs.msp = CORE0_SP;
    emu.core_mut(0).regs.r[13] = CORE0_SP;
    emu.core_mut(0).regs.set_pc(CORE0_PC);
    emu.core_mut(0).regs.xpsr = 1 << 24;
    emu.core_mut(1).regs.msp = CORE1_SP;
    emu.core_mut(1).regs.r[13] = CORE1_SP;
    emu.core_mut(1).regs.set_pc(CORE1_PC);
    emu.core_mut(1).regs.xpsr = 1 << 24;
    emu.core_mut(1).wake();
    arm_systick(&mut emu, 0);
    arm_systick(&mut emu, 1);
    let _ = emu.step();
    let icsr0 = emu.bus.ppb[0].icsr;
    let icsr1 = emu.bus.ppb[1].icsr;
    let pendst0 = icsr0 & (1 << 26) != 0;
    let pendst1 = icsr1 & (1 << 26) != 0;
    assert!(
        pendst0,
        "core 0 PENDSTSET must latch (icsr0 = {icsr0:#010x})",
    );
    assert!(
        pendst1,
        "core 1 PENDSTSET must latch (icsr1 = {icsr1:#010x})",
    );
}
