//! What the phase-locked loops hold and when they lock.
use vstd::prelude::*;

use crate::bits::{bit, lemma_bit_ops};
use crate::clocks::{locked, Pll};
use crate::peripherals::laws::{lemma_fields, lemma_mask_bits, lemma_ported, takes};

verus! {

/// A loop can lock: its core and its oscillator are powered and it has a
/// feedback divider.
pub open spec fn can_lock(p: Pll) -> bool {
    !bit(p.pwr, 0) && !bit(p.pwr, 5) && p.fbdiv != 0
}

/// Each register of a loop holds its own bits, takes a write bit by bit and
/// leaves the others alone.
pub proof fn law_loop_registers(p: Pll, val: u32, alias: u32, i: int, at: u32, other: u32, now: u64)
    requires
        0 <= i < 32,
        at != other,
    ensures
        takes(p.word_at(None, 0x0, now), p.after_write(0x0, val, alias).word_at(None, 0x0, now), val, alias, i, i < 6
            || i == 8),
        takes(p.word_at(None, 0x4, now), p.after_write(0x4, val, alias).word_at(None, 0x4, now), val, alias, i, i == 0
            || i == 2 || i == 3 || i == 5),
        takes(p.word_at(None, 0x8, now), p.after_write(0x8, val, alias).word_at(None, 0x8, now), val, alias, i, i < 12),
        takes(
            p.word_at(None, 0xC, now),
            p.after_write(0xC, val, alias).word_at(None, 0xC, now),
            val,
            alias,
            i,
            12 <= i < 15 || 16 <= i < 19,
        ),
        p.after_write(at, val, alias).word_at(None, other, now) == p.word_at(None, other, now),
{
    lemma_mask_bits(i as u32);
    lemma_ported(p.cs, val, alias, 0x13F, i);
    lemma_ported(p.pwr, val, alias, 0x2D, i);
    lemma_ported(p.fbdiv, val, alias, 0xFFF, i);
    lemma_ported(p.prim, val, alias, 0x7_7000, i);
}

/// A loop that comes to be able to lock does so twelve hundred clocks later;
/// one that goes on being able keeps its time; one that is not able has none.
/// The top bit of the control word shows that the time has come.
pub proof fn law_loop_locks(p: Pll, lock_at: Option<u64>, at: u32, val: u32, alias: u32, now: u64, later: u64, i: int)
    requires
        now + 1200 < 0x1_0000_0000_0000_0000,
        0 <= i < 31,
    ensures
        ({
            let after = p.after_write(at, val, alias);
            let then = p.lock_after_write(lock_at, at, val, alias, now);
            &&& !can_lock(after) ==> then is None
            &&& can_lock(after) && lock_at is None ==> then == Some((now + 1200) as u64)
            &&& can_lock(after) && lock_at is Some ==> then == lock_at
        }),
        bit(p.word_at(lock_at, 0x0, later), 31) == (bit(p.cs, 31) || (lock_at matches Some(t) && t <= later)),
        bit(p.word_at(lock_at, 0x0, later), i) == bit(p.cs, i),
        locked(lock_at, later) == (lock_at matches Some(t) && t <= later),
{
    lemma_fields(p.after_write(at, val, alias).pwr);
    lemma_mask_bits(i as u32);
    lemma_mask_bits(31);
    lemma_bit_ops(p.cs, 0x8000_0000, 31, 0);
    lemma_bit_ops(p.cs, 0x8000_0000, i as u32, 0);
}

} // verus!
