//! Regions whose decoded instructions have gone stale, as bits.
use vstd::prelude::*;

verus! {

pub const ROM: u32 = 0x1;
pub const XIP: u32 = 0x2;
pub const SRAM: u32 = 0x4;
/// Every region.
pub const BULK: u32 = 0x8000_0000;

} // verus!
