//! DMA set-ups with rings and no quiet channels.
use vstd::prelude::*;

use crate::bus::Bus;
use crate::fixtures::dma::{control_word, released};

verus! {

/// Releases the DMA controller from reset.
pub fn release_dma(bus: &mut Bus)
    ensures
        final(bus)@ == released(old(bus)@),
{
    crate::fixtures::dma::release(bus);
}

/// Builds the control word of a channel that reports its end.
pub fn ctrl(en: bool, ds: u32, ir: bool, iw: bool, treq: u8, chain: u32, ring: u32, rsel: bool) -> (c: u32)
    ensures
        c == control_word(en, ir, iw, ds, chain, treq, ring, rsel, false),
{
    crate::fixtures::dma::ctrl(en, ir, iw, ds, chain, treq, ring, rsel, false)
}

} // verus!
