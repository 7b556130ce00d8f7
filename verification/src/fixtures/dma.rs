//! DMA set-ups: control words and programmed channels.
use vstd::prelude::*;

use crate::bus::laws::{law_reset_register_decides, lemma_region, lemma_register_address};
use crate::bus::model::BusState;
use crate::bus::peripheral_dispatch::RESET_DMA;
use crate::bus::{Bus, DMA_BASE, RESETS_BASE};
use crate::dma::{Channel, CTRL_EN, CTRL_INCR_READ, CTRL_INCR_WRITE, CTRL_IRQ_QUIET, CTRL_RING_SEL};
use crate::memory::Width;

verus! {

/// The bus with the DMA controller out of reset.
pub open spec fn released(bus: BusState) -> BusState {
    bus.after_write((RESETS_BASE + 0x3000) as u32, Width::Word, 1u32 << RESET_DMA)
}

/// Releases the DMA controller from reset.
pub fn release(bus: &mut Bus)
    ensures
        final(bus)@ == released(old(bus)@),
{
    bus.write32(RESETS_BASE + 0x3000, 1u32 << RESET_DMA);
}

pub open spec fn flag(on: bool) -> int {
    if on {
        1
    } else {
        0
    }
}

/// `mask`, or nothing.
fn mask_if(on: bool, mask: u32) -> (m: u32)
    ensures
        m == (if on {
            mask
        } else {
            0
        }),
{
    if on {
        mask
    } else {
        0
    }
}

/// A channel's control word, field by field; each field is cut to its width.
pub open spec fn control_word(
    en: bool,
    incr_read: bool,
    incr_write: bool,
    data_size: u32,
    chain_to: u32,
    treq: u8,
    ring: u32,
    ring_on_write: bool,
    quiet: bool,
) -> u32 {
    (flag(en) + 0x4 * (data_size % 4) + 0x10 * flag(incr_read) + 0x20 * flag(incr_write) + 0x40 * (ring % 16)
        + 0x400 * flag(ring_on_write) + 0x800 * (chain_to % 16) + 0x8000 * (treq % 64) + 0x20_0000 * flag(
        quiet,
    )) as u32
}

/// Builds a channel's control word.
pub fn ctrl(
    en: bool,
    incr_read: bool,
    incr_write: bool,
    data_size: u32,
    chain_to: u32,
    treq: u8,
    ring: u32,
    ring_on_write: bool,
    quiet: bool,
) -> (c: u32)
    ensures
        c == control_word(en, incr_read, incr_write, data_size, chain_to, treq, ring, ring_on_write, quiet),
{
    let c: u32 = mask_if(en, CTRL_EN) | mask_if(incr_read, CTRL_INCR_READ) | mask_if(
        incr_write,
        CTRL_INCR_WRITE,
    ) | ((data_size & 0x3) << 2) | ((chain_to & 0xF) << 11) | ((treq as u32 & 0x3F) << 15) | ((ring & 0xF) << 6)
        | mask_if(ring_on_write, CTRL_RING_SEL) | mask_if(quiet, CTRL_IRQ_QUIET);
    proof {
        lemma_fields_do_not_overlap(
            en,
            incr_read,
            incr_write,
            data_size,
            chain_to,
            treq as u32,
            ring,
            ring_on_write,
            quiet,
            c,
        );
    }
    c
}

/// The fields of a control word occupy different bits, so putting them
/// together is adding them up.
proof fn lemma_fields_do_not_overlap(
    en: bool,
    ir: bool,
    iw: bool,
    size: u32,
    chain: u32,
    treq: u32,
    ring: u32,
    row: bool,
    quiet: bool,
    c: u32,
)
    by (bit_vector)
    requires
        c == (if en { 1u32 } else { 0u32 }) | (if ir { 0x10u32 } else { 0u32 }) | (if iw { 0x20u32 } else { 0u32 }) | ((size & 0x3) << 2) | ((chain & 0xF) << 11) | ((treq & 0x3F) << 15) | ((ring & 0xF) << 6) | (if row { 0x400u32 } else { 0u32 }) | (if quiet { 0x20_0000u32 } else { 0u32 }),
    ensures
        c == (if en { 1u32 } else { 0u32 }) + 0x4 * (size % 4) + (if ir { 0x10u32 } else { 0u32 }) + (if iw { 0x20u32 } else { 0u32 }) + 0x40 * (ring % 16) + (if row { 0x400u32 } else { 0u32 }) + 0x800 * (chain % 16) + 0x8000 * (treq % 64) + (if quiet { 0x20_0000u32 } else { 0u32 }),
{
}

/// A channel programmed through its registers, the last of which does not
/// trigger it.
pub open spec fn programmed(bus: BusState, ch: u32, rd: u32, wr: u32, n: u32, c: u32) -> BusState {
    let base = DMA_BASE + ch * 0x40;
    bus.after_write(base as u32, Width::Word, rd).after_write((base + 0x04) as u32, Width::Word, wr).after_write(
        (base + 0x08) as u32,
        Width::Word,
        n,
    ).after_write((base + 0x10) as u32, Width::Word, c)
}

/// Programs a channel without starting it.
pub fn program(bus: &mut Bus, ch: u32, rd: u32, wr: u32, n: u32, c: u32)
    requires
        DMA_BASE + ch * 0x40 + 0x10 <= 0xFFFF_FFFF,
    ensures
        final(bus)@ == programmed(old(bus)@, ch, rd, wr, n, c),
{
    let base: u32 = DMA_BASE + ch * 0x40;
    bus.write32(base, rd);
    bus.write32(base + 0x04, wr);
    bus.write32(base + 0x08, n);
    bus.write32(base + 0x10, c);
}

/// A channel reads out of a control word what was put in.
pub proof fn law_control_word_fields(
    en: bool,
    incr_read: bool,
    incr_write: bool,
    data_size: u32,
    chain_to: u32,
    treq: u8,
    ring: u32,
    ring_on_write: bool,
    quiet: bool,
    c: Channel,
)
    requires
        c.ctrl == control_word(
            en,
            incr_read,
            incr_write,
            data_size,
            chain_to,
            treq,
            ring,
            ring_on_write,
            quiet,
        ),
    ensures
        c.treq() == treq % 64,
        c.chain_to() == chain_to % 16,
        c.ring() == ring % 16,
        c.size() == (if data_size % 4 == 0 {
            1u32
        } else if data_size % 4 == 1 {
            2u32
        } else {
            4u32
        }),
        (c.ctrl >> 2) & 0x3 == data_size % 4,
        (c.ctrl & CTRL_EN != 0) == en,
        (c.ctrl & CTRL_INCR_READ != 0) == incr_read,
        (c.ctrl & CTRL_INCR_WRITE != 0) == incr_write,
        (c.ctrl & CTRL_RING_SEL != 0) == ring_on_write,
        (c.ctrl & CTRL_IRQ_QUIET != 0) == quiet,
{
    lemma_fields_read_back(
        en,
        incr_read,
        incr_write,
        data_size % 4,
        chain_to % 16,
        (treq % 64) as u32,
        ring % 16,
        ring_on_write,
        quiet,
        c.ctrl,
    );
}

/// Once released, the controller answers, and no other peripheral's reset has
/// changed.
pub proof fn law_release_reaches_the_controller(b: BusState, base: u32)
    ensures
        !released(b).held(DMA_BASE),
        base != DMA_BASE ==> released(b).held(base) == b.held(base),
{
    law_reset_register_decides(b, 1u32 << RESET_DMA);
    lemma_one_line_released(b.resets);
}

proof fn lemma_one_line_released(x: u32)
    by (bit_vector)
    ensures
        ((x & !(1u32 << 2)) & 0x01FF_FFFF) & (1u32 << 2) == 0,
        ((x & !(1u32 << 2)) & 0x01FF_FFFF) & (1u32 << 0) == x & (1u32 << 0),
        ((x & !(1u32 << 2)) & 0x01FF_FFFF) & (1u32 << 3) == x & (1u32 << 3),
        ((x & !(1u32 << 2)) & 0x01FF_FFFF) & (1u32 << 4) == x & (1u32 << 4),
        ((x & !(1u32 << 2)) & 0x01FF_FFFF) & (1u32 << 14) == x & (1u32 << 14),
        ((x & !(1u32 << 2)) & 0x01FF_FFFF) & (1u32 << 16) == x & (1u32 << 16),
        ((x & !(1u32 << 2)) & 0x01FF_FFFF) & (1u32 << 17) == x & (1u32 << 17),
        ((x & !(1u32 << 2)) & 0x01FF_FFFF) & (1u32 << 21) == x & (1u32 << 21),
        ((x & !(1u32 << 2)) & 0x01FF_FFFF) & (1u32 << 22) == x & (1u32 << 22),
        ((x & !(1u32 << 2)) & 0x01FF_FFFF) & (1u32 << 23) == x & (1u32 << 23),
        ((x & !(1u32 << 2)) & 0x01FF_FFFF) & (1u32 << 24) == x & (1u32 << 24),
        x & 0 == 0,
        ((x & !(1u32 << 2)) & 0x01FF_FFFF) & 0 == 0,
{
}

/// A word written to a register of the controller.
proof fn lemma_dma_write(b: BusState, offset: u32, val: u32)
    requires
        offset < 0x1000,
        !b.held(DMA_BASE),
    ensures
        b.after_write((DMA_BASE + offset) as u32, Width::Word, val).dma == b.dma.after_write(offset, val, 0),
        b.after_write((DMA_BASE + offset) as u32, Width::Word, val).resets == b.resets,
{
    lemma_region(DMA_BASE);
    lemma_register_address((DMA_BASE + offset) as u32, DMA_BASE, offset);
    reveal(BusState::after_write);
    reveal(BusState::after_update);
}

/// A programmed channel holds what it was given, has not started, and leaves
/// every other channel as it was.
pub proof fn law_programmed_channel(b: BusState, ch: u32, rd: u32, wr: u32, n: u32, c: u32, other: int)
    requires
        ch < 12,
        !b.held(DMA_BASE),
        0 <= other < 12,
    ensures
        ({
            let after = programmed(b, ch, rd, wr, n, c);
            let before = b.dma.channels[ch as int];
            &&& after.dma.channels[ch as int].read_addr == rd
            &&& after.dma.channels[ch as int].write_addr == wr
            &&& after.dma.channels[ch as int].trans_count == n
            &&& after.dma.channels[ch as int].ctrl == before.with_ctrl(c).ctrl
            &&& after.dma.channels[ch as int].busy == before.busy
            &&& other != ch ==> after.dma.channels[other] == b.dma.channels[other]
        }),
{
    let base = (ch * 0x40) as u32;
    let b1 = b.after_write((DMA_BASE + ch * 0x40) as u32, Width::Word, rd);
    lemma_dma_write(b, base, rd);
    let b2 = b1.after_write((DMA_BASE + ch * 0x40 + 0x04) as u32, Width::Word, wr);
    lemma_dma_write(b1, (base + 0x04) as u32, wr);
    let b3 = b2.after_write((DMA_BASE + ch * 0x40 + 0x08) as u32, Width::Word, n);
    lemma_dma_write(b2, (base + 0x08) as u32, n);
    lemma_dma_write(b3, (base + 0x10) as u32, c);
}

proof fn lemma_fields_read_back(
    en: bool,
    ir: bool,
    iw: bool,
    size: u32,
    chain: u32,
    treq: u32,
    ring: u32,
    row: bool,
    quiet: bool,
    c: u32,
)
    by (bit_vector)
    requires
        size < 4,
        chain < 16,
        treq < 64,
        ring < 16,
        c == (if en { 1u32 } else { 0u32 }) + 0x4 * size + (if ir { 0x10u32 } else { 0u32 }) + (if iw { 0x20u32 } else { 0u32 }) + 0x40 * ring + (if row { 0x400u32 } else { 0u32 }) + 0x800 * chain + 0x8000 * treq + (if quiet { 0x20_0000u32 } else { 0u32 }),
    ensures
        (c >> 2) & 0x3 == size,
        (c >> 6) & 0xF == ring,
        (c >> 11) & 0xF == chain,
        (c >> 15) & 0x3F == treq,
        (c & 0x1 != 0) == en,
        (c & 0x10 != 0) == ir,
        (c & 0x20 != 0) == iw,
        (c & 0x400 != 0) == row,
        (c & 0x20_0000 != 0) == quiet,
{
}

} // verus!
