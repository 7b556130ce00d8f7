//! What a write through an access port does to each bit of a register.
use vstd::prelude::*;

use crate::bits::{aliased, bit, lemma_bit_ops};

verus! {

/// One bit of a register that held `was`, after a write whose bit is `val`:
/// port one inverts, port two sets, port three clears, any other replaces.
pub open spec fn ported(was: bool, val: bool, alias: u32) -> bool {
    if alias == 1 {
        was != val
    } else if alias == 2 {
        was || val
    } else if alias == 3 {
        was && !val
    } else {
        val
    }
}

/// Bit `i` of a register that goes from `was` to `now` by a write of `val`; a
/// bit that the register does not hold stays clear.
pub open spec fn takes(was: u32, now: u32, val: u32, alias: u32, i: int, held: bool) -> bool {
    bit(now, i) == (held && ported(bit(was, i), bit(val, i), alias))
}

/// Each access port works on every bit by itself.
pub proof fn law_access_ports(cur: u32, val: u32, alias: u32, i: int)
    requires
        0 <= i < 32,
    ensures
        bit(aliased(cur, val, alias), i) == ported(bit(cur, i), bit(val, i), alias),
{
    lemma_bit_ops(cur, val, i as u32, 0);
}

/// The same for a register that holds the bits of `mask`.
pub proof fn lemma_ported(cur: u32, val: u32, alias: u32, mask: u32, i: int)
    requires
        0 <= i < 32,
    ensures
        takes(cur, aliased(cur, val, alias) & mask, val, alias, i, bit(mask, i)),
        bit(aliased(cur, val, alias), i) == ported(bit(cur, i), bit(val, i), alias),
        bit(aliased(0, val, alias), i) == ported(false, bit(val, i), alias),
{
    law_access_ports(cur, val, alias, i);
    law_access_ports(0, val, alias, i);
    lemma_bit_ops(aliased(cur, val, alias), mask, i as u32, 0);
    lemma_bit_ops(0, mask, i as u32, 0);
}

/// Which bits the masks of the registers have.
pub proof fn lemma_mask_bits(i: u32)
    by (bit_vector)
    requires
        i < 32,
    ensures
        (0x1u32 >> i) & 1 == 1 <==> i == 0,
        (0x2u32 >> i) & 1 == 1 <==> i == 1,
        (0x4u32 >> i) & 1 == 1 <==> i == 2,
        (0x8u32 >> i) & 1 == 1 <==> i == 3,
        (0x10u32 >> i) & 1 == 1 <==> i == 4,
        (0x20u32 >> i) & 1 == 1 <==> i == 5,
        (0x40u32 >> i) & 1 == 1 <==> i == 6,
        (0x80u32 >> i) & 1 == 1 <==> i == 7,
        (0x100u32 >> i) & 1 == 1 <==> i == 8,
        (0x200u32 >> i) & 1 == 1 <==> i == 9,
        (0x400u32 >> i) & 1 == 1 <==> i == 10,
        (0x800u32 >> i) & 1 == 1 <==> i == 11,
        (0x8000_0000u32 >> i) & 1 == 1 <==> i == 31,
        (0x3u32 >> i) & 1 == 1 <==> i < 2,
        (0x7u32 >> i) & 1 == 1 <==> i < 3,
        (0xFu32 >> i) & 1 == 1 <==> i < 4,
        (0x3Fu32 >> i) & 1 == 1 <==> i < 6,
        (0xFFu32 >> i) & 1 == 1 <==> i < 8,
        (0x1FFu32 >> i) & 1 == 1 <==> i < 9,
        (0x3FFu32 >> i) & 1 == 1 <==> i < 10,
        (0x7FFu32 >> i) & 1 == 1 <==> i < 11,
        (0xFFFu32 >> i) & 1 == 1 <==> i < 12,
        (0x1FFFu32 >> i) & 1 == 1 <==> i < 13,
        (0xFFFFu32 >> i) & 1 == 1 <==> i < 16,
        (0xFF_FFFFu32 >> i) & 1 == 1 <==> i < 24,
        (0xFEu32 >> i) & 1 == 1 <==> 1 <= i < 8,
        (0x13Fu32 >> i) & 1 == 1 <==> (i < 6 || i == 8),
        (0x2Du32 >> i) & 1 == 1 <==> (i == 0 || i == 2 || i == 3 || i == 5),
        (0x7_7000u32 >> i) & 1 == 1 <==> (12 <= i < 15 || 16 <= i < 19),
        (0x1F_700Fu32 >> i) & 1 == 1 <==> (i < 4 || 12 <= i < 15 || 16 <= i < 21),
        (0x0F00_000Fu32 >> i) & 1 == 1 <==> (i < 4 || 24 <= i < 28),
        (0xFFFF_FF00u32 >> i) & 1 == 1 <==> i >= 8,
        (0xFFFF_0000u32 >> i) & 1 == 1 <==> i >= 16,
        (0x7FFF_FF9Fu32 >> i) & 1 == 1 <==> (i < 5 || 7 <= i < 31),
        (0x01FF_FFFFu32 >> i) & 1 == 1 <==> i < 25,
        (0x03FF_FFFFu32 >> i) & 1 == 1 <==> i < 26,
        (0x0400_0000u32 >> i) & 1 == 1 <==> i == 26,
        (0x1000_0000u32 >> i) & 1 == 1 <==> i == 28,
        (0xFFFF_FFFFu32 >> i) & 1 == 1,
        (0u32 >> i) & 1 != 1,
        0x40u32 | 0x200u32 == 0x240,
        0x100u32 | 0x400u32 == 0x500,
        0x4u32 | 0x8u32 == 0xC,
        (0x240u32 >> i) & 1 == 1 <==> (i == 6 || i == 9),
        (0x500u32 >> i) & 1 == 1 <==> (i == 8 || i == 10),
{
}

/// Tests of single bits and fields of a word, as the registers make them.
pub proof fn lemma_fields(a: u32)
    by (bit_vector)
    ensures
        a & 0x1 != 0 <==> (a >> 0) & 1 == 1,
        a & 0x2 != 0 <==> (a >> 1) & 1 == 1,
        a & 0x4 != 0 <==> (a >> 2) & 1 == 1,
        a & 0x8 != 0 <==> (a >> 3) & 1 == 1,
        a & 0x10 != 0 <==> (a >> 4) & 1 == 1,
        a & 0x20 != 0 <==> (a >> 5) & 1 == 1,
        a & 0x100 != 0 <==> (a >> 8) & 1 == 1,
        a & 0x200 != 0 <==> (a >> 9) & 1 == 1,
        a & 0x400 != 0 <==> (a >> 10) & 1 == 1,
        a & 0x800 != 0 <==> (a >> 11) & 1 == 1,
        a & 0x101 == 0x101 <==> ((a >> 0) & 1 == 1 && (a >> 8) & 1 == 1),
        a & (0x4u32 | 0x8u32) != 0 <==> ((a >> 2) & 1 == 1 || (a >> 3) & 1 == 1),
        a & 0x7 == a % 0x8,
        a & 0xF == a % 0x10,
        a & 0x7F == a % 0x80,
        a & 0xFF == a % 0x100,
        a & 0x1FF == a % 0x200,
        a & 0xFE == a % 0x100 - a % 2,
        (a >> 8) & 0xFF == a / 0x100 % 0x100,
        (a >> 12) & 0x7 == a / 0x1000 % 8,
        (a >> 24) & 0xF == a / 0x100_0000 % 0x10,
        a >> 4 == a / 16,
{
}

} // verus!
