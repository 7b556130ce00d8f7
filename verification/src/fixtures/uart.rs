//! The clock tree that the serial ports are tried with.
use vstd::prelude::*;

use crate::clocks::ClockTree;

verus! {

/// A clock tree of 125 MHz whose reference is left as it comes out of reset.
pub fn tree() -> (t: ClockTree)
    ensures
        t == (ClockTree { sys_clk_hz: 125_000_000, peri_clk_hz: 125_000_000, ..ClockTree::at_reset() }),
{
    ClockTree { sys_clk_hz: 125_000_000, peri_clk_hz: 125_000_000, ..ClockTree::default() }
}

} // verus!
