//! The tick generator and scratch registers of the watchdog block.
use vstd::array::{spec_array_fill_for_copy_type, spec_array_update};
use vstd::prelude::*;

use crate::bits::{aliased, apply_alias};

verus! {

pub const SCRATCH0_OFFSET: u32 = 0x0C;
pub const TICK_OFFSET: u32 = 0x2C;

#[derive(Clone, Copy, Debug, PartialEq, Eq)]
pub struct WatchdogTickRegs {
    /// Reference clocks per tick.
    pub cycles: u32,
    pub enable: bool,
    pub running: bool,
    pub scratch: [u32; 8],
}

impl WatchdogTickRegs {
    pub open spec fn at_reset() -> WatchdogTickRegs {
        WatchdogTickRegs {
            cycles: 12,
            enable: false,
            running: false,
            scratch: spec_array_fill_for_copy_type::<u32, 8>(0),
        }
    }

    pub open spec fn is_scratch(offset: u32) -> bool {
        SCRATCH0_OFFSET <= offset < TICK_OFFSET && offset % 4 == 0
    }

    pub open spec fn tick_word(self) -> u32 {
        self.cycles | (if self.enable { 0x200 } else { 0 }) | (if self.running { 0x400 } else { 0 })
    }

    pub open spec fn word_at(self, offset: u32) -> u32 {
        if offset == TICK_OFFSET {
            self.tick_word()
        } else if WatchdogTickRegs::is_scratch(offset) {
            self.scratch[(offset - SCRATCH0_OFFSET) / 4]
        } else {
            0
        }
    }

    /// Enabling the generator also starts it.
    pub open spec fn after_write(self, offset: u32, val: u32, alias: u32) -> WatchdogTickRegs {
        if offset == TICK_OFFSET {
            let word = aliased(self.tick_word(), val, alias);
            WatchdogTickRegs {
                cycles: word & 0x1FF,
                enable: word & 0x200 != 0,
                running: word & 0x200 != 0,
                ..self
            }
        } else if WatchdogTickRegs::is_scratch(offset) {
            let n = (offset - SCRATCH0_OFFSET) / 4;
            WatchdogTickRegs {
                scratch: spec_array_update(self.scratch, n, aliased(self.scratch[n], val, alias)),
                ..self
            }
        } else {
            self
        }
    }

    pub fn new() -> (w: WatchdogTickRegs)
        ensures
            w == WatchdogTickRegs::at_reset(),
    {
        WatchdogTickRegs { cycles: 12, enable: false, running: false, scratch: [0;8] }
    }

    pub fn read32(&self, offset: u32) -> (out: u32)
        ensures
            out == self.word_at(offset),
    {
        if offset == TICK_OFFSET {
            self.cycles | (if self.enable { 0x200 } else { 0 }) | (if self.running { 0x400 } else { 0 })
        } else if SCRATCH0_OFFSET <= offset && offset < TICK_OFFSET && offset % 4 == 0 {
            self.scratch[((offset - SCRATCH0_OFFSET) / 4) as usize]
        } else {
            0
        }
    }

    pub fn write32(&mut self, offset: u32, val: u32, alias: u32)
        ensures
            *final(self) == old(self).after_write(offset, val, alias),
    {
        if offset == TICK_OFFSET {
            let word: u32 = apply_alias(self.read32(TICK_OFFSET), val, alias);
            self.cycles = word & 0x1FF;
            self.enable = word & 0x200 != 0;
            self.running = word & 0x200 != 0;
        } else if SCRATCH0_OFFSET <= offset && offset < TICK_OFFSET && offset % 4 == 0 {
            let n: usize = ((offset - SCRATCH0_OFFSET) / 4) as usize;
            let word: u32 = apply_alias(self.scratch[n], val, alias);
            self.scratch[n] = word;
        }
    }
}

impl Default for WatchdogTickRegs {
    fn default() -> (w: WatchdogTickRegs)
        ensures
            w == WatchdogTickRegs::at_reset(),
    {
        WatchdogTickRegs::new()
    }
}

} // verus!
