//! What the tick generator and the scratch registers hold.
use vstd::prelude::*;

use crate::bits::{bit, lemma_bit_ops};
use crate::peripherals::laws::{lemma_fields, lemma_mask_bits, lemma_ported, ported, takes};
use crate::peripherals::watchdog_tick::WatchdogTickRegs;

verus! {

/// Scratch register `n` keeps what is written to it, and a write to it
/// changes no other.
pub proof fn law_scratch_registers(w: WatchdogTickRegs, n: int, m: int, val: u32, alias: u32, i: int)
    requires
        0 <= n < 8,
        0 <= m < 8,
        0 <= i < 32,
    ensures
        ({
            let at = (0x0C + 4 * n) as u32;
            let other = (0x0C + 4 * m) as u32;
            let after = w.after_write(at, val, alias);
            &&& takes(w.word_at(at), after.word_at(at), val, alias, i, true)
            &&& m != n ==> after.word_at(other) == w.word_at(other)
            &&& after.word_at(0x2C) == w.word_at(0x2C)
            &&& w.after_write(0x2C, val, alias).word_at(at) == w.word_at(at)
        }),
{
    lemma_mask_bits(i as u32);
    lemma_ported(w.scratch[n], val, alias, 0xFFFF_FFFF, i);
}

/// The tick word: nine bits of cycle count, then the enable bit, then a bit
/// that shows that the generator runs, which it does exactly while it is
/// enabled.
pub proof fn law_tick_register(w: WatchdogTickRegs, val: u32, alias: u32, i: int)
    requires
        0 <= i < 32,
        w.cycles < 512,
    ensures
        ({
            let after = w.after_write(0x2C, val, alias);
            &&& i < 10 ==> bit(after.word_at(0x2C), i) == ported(bit(w.word_at(0x2C), i), bit(val, i), alias)
            &&& bit(after.word_at(0x2C), 10) == bit(after.word_at(0x2C), 9)
            &&& i > 10 ==> !bit(after.word_at(0x2C), i)
            &&& after.word_at(0x2C) as int % 512 == after.cycles
            &&& after.cycles < 512
            &&& after.enable == bit(after.word_at(0x2C), 9)
            &&& after.running == after.enable
        }),
{
    let after = w.after_write(0x2C, val, alias);
    let word = crate::bits::aliased(w.tick_word(), val, alias);
    lemma_tick_bits(after, i);
    lemma_tick_bits(after, 9);
    lemma_tick_bits(after, 10);
    lemma_mask_bits(i as u32);
    lemma_mask_bits(9);
    lemma_mask_bits(10);
    lemma_fields(word);
    lemma_ported(w.tick_word(), val, alias, 0x1FF, i);
    lemma_ported(w.tick_word(), val, alias, 0x1FF, 9);
    lemma_ported(w.tick_word(), val, alias, 0x1FF, 10);
    lemma_low_part(after.cycles);
}

proof fn lemma_tick_bits(w: WatchdogTickRegs, i: int)
    requires
        0 <= i < 32,
    ensures
        bit(w.word_at(0x2C), i) == (bit(w.cycles, i) || (i == 9 && w.enable) || (i == 10 && w.running)),
{
    let a = if w.enable {
        0x200
    } else {
        0u32
    };
    let b = if w.running {
        0x400
    } else {
        0u32
    };
    lemma_mask_bits(i as u32);
    lemma_bit_ops(w.cycles, a, i as u32, 0);
    lemma_bit_ops(w.cycles | a, b, i as u32, 0);
}

proof fn lemma_low_part(c: u32)
    by (bit_vector)
    ensures
        c < 512 ==> (c | 0 | 0) % 512 == c,
        c < 512 ==> (c | 0x200 | 0) % 512 == c,
        c < 512 ==> (c | 0 | 0x400) % 512 == c,
        c < 512 ==> (c | 0x200 | 0x400) % 512 == c,
{
}

} // verus!
