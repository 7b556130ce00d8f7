//! How narrow accesses see and change words, and in which order memories keep
//! the bytes of a number.
use vstd::prelude::*;

use crate::bits::{bit, lemma_bit_ops, wadd};
use crate::bus::laws::{law_sram_read, law_sram_write};
use crate::bus::model::{in_lane, lane, merged, replicated, touched, BusState};
use crate::memory::{load, overlaid, store, Width};

verus! {

/// Whether bit `i` of a word lies in what a narrow access at `addr` covers.
pub open spec fn covered(addr: u32, w: Width, i: int) -> bool {
    let first = 8 * (addr as int % 4);
    let bits = match w {
        Width::Byte => 8int,
        Width::Half => 16int,
        Width::Word => 32int,
    };
    first <= i < first + bits
}

/// The parts of an address.
pub proof fn lemma_parts(a: u32)
    by (bit_vector)
    ensures
        a & 0xFFFF_C000 == a - a % 0x4000,
        a & 0xFFF == a % 0x1000,
        (a >> 12) & 0x3 == a / 0x1000 % 4,
        a >> 28 == a / 0x1000_0000,
        a >> 24 == a / 0x100_0000,
        a & 0x00FF_FFFF == a % 0x100_0000,
        a & 0xFFFF_FFFC == a - a % 4,
        a & 0xFFFF_FFFE == a - a % 2,
{
}

proof fn lemma_lane_parts(x: u32)
    by (bit_vector)
    ensures
        (x >> 0) & 0xFF == x % 0x100,
        (x >> 8) & 0xFF == x / 0x100 % 0x100,
        (x >> 16) & 0xFF == x / 0x1_0000 % 0x100,
        (x >> 24) & 0xFF == x / 0x100_0000,
        (x >> 0) & 0xFFFF == x % 0x1_0000,
        (x >> 16) & 0xFFFF == x / 0x1_0000,
        (x >> 0) & 0xFFFF_FFFF == x,
{
}

/// A narrow access at address `addr` sees the byte, or the half, that lies
/// there in the word, the lowest first; one of full width sees the word.
pub proof fn law_lanes(word: u32, addr: u32)
    ensures
        lane(word, addr, Width::Byte) as int == (if addr as int % 4 == 0 {
            word as int % 0x100
        } else if addr as int % 4 == 1 {
            word as int / 0x100 % 0x100
        } else if addr as int % 4 == 2 {
            word as int / 0x1_0000 % 0x100
        } else {
            word as int / 0x100_0000
        }),
        addr as int % 4 == 0 ==> lane(word, addr, Width::Half) as int == word as int % 0x1_0000,
        addr as int % 4 == 2 ==> lane(word, addr, Width::Half) as int == word as int / 0x1_0000,
        addr as int % 4 == 0 ==> lane(word, addr, Width::Word) == word,
{
    lemma_lane_parts(word);
}

/// A narrow write puts its value there and keeps every other bit; moved to
/// its place, the value has no other bits.
pub proof fn law_merging(word: u32, addr: u32, w: Width, val: u32, i: int)
    requires
        0 <= i < 32,
    ensures
        bit(merged(word, addr, w, val), i) == (if covered(addr, w, i) {
            bit(val, i - 8 * (addr as int % 4))
        } else {
            bit(word, i)
        }),
        bit(in_lane(addr, w, val), i) == (covered(addr, w, i) && bit(val, i - 8 * (addr as int % 4))),
{
    let s = (8 * (addr % 4)) as u32;
    let m = w.mask();
    lemma_bit_ops(word, m << s, i as u32, 0);
    lemma_bit_ops(m, 0, i as u32, s);
    lemma_bit_ops(val & m, 0, i as u32, s);
    lemma_bit_ops(word & !(m << s), (val & m) << s, i as u32, 0);
    if i >= s {
        lemma_bit_ops(val, m, (i - s) as u32, 0);
        crate::peripherals::laws::lemma_mask_bits((i - s) as u32);
    }
}

/// A narrow value on the whole width of the bus: every byte, or both halves,
/// are it.
pub proof fn law_replication(val: u32)
    ensures
        ({
            let r = replicated(val, Width::Byte) as int;
            let v = val as int % 0x100;
            r % 0x100 == v && r / 0x100 % 0x100 == v && r / 0x1_0000 % 0x100 == v && r / 0x100_0000 == v
        }),
        replicated(val, Width::Half) as int % 0x1_0000 == val as int % 0x1_0000,
        replicated(val, Width::Half) as int / 0x1_0000 == val as int % 0x1_0000,
        replicated(val, Width::Word) == val,
{
}

/// The halfwords that an access touches are those that hold one of its bytes.
pub proof fn law_touched_halfwords(addr: u32, w: Width, half: u32)
    requires
        half as int % 2 == 0,
        addr < 0xFFFF_FFF8,
    ensures
        touched(addr, w).contains(half) <==> (half + 2 > addr && half < addr + (match w {
            Width::Byte => 1int,
            Width::Half => 2int,
            Width::Word => 4int,
        })),
{
    lemma_parts(addr);
    reveal(wadd);
    let first = addr & 0xFFFF_FFFE;
    let t = touched(addr, w);
    assert(first == addr - addr % 2);
    assert(t[0] == first);
    if t.len() > 1 {
        assert(t[1] == first + 2);
    }
    if t.len() > 2 {
        assert(t[2] == first + 4);
    }
}

/// A number in memory is its bytes, the lowest first.
pub proof fn law_loads_are_little_endian(s: Seq<u8>, at: int)
    requires
        0 <= at,
        at + 4 <= s.len(),
    ensures
        load(s, at, Width::Byte) == s[at],
        load(s, at, Width::Half) == s[at] + 256 * s[at + 1],
        load(s, at, Width::Word) == s[at] + 256 * (s[at + 1] + 256 * (s[at + 2] + 256 * s[at + 3])),
{
}

/// A store puts the bytes of a number there, the lowest first, and changes no
/// other byte.
pub proof fn law_stores_are_little_endian(s: Seq<u8>, at: int, w: Width, val: u32, i: int)
    requires
        0 <= at,
        at + (match w {
            Width::Byte => 1int,
            Width::Half => 2int,
            Width::Word => 4int,
        }) <= s.len(),
        0 <= i < s.len(),
    ensures
        ({
            let after = store(s, at, w, val);
            &&& after.len() == s.len()
            &&& after[at] as int == val as int % 256
            &&& w != Width::Byte ==> after[at + 1] as int == val as int / 256 % 256
            &&& w == Width::Word ==> after[at + 2] as int == val as int / 65536 % 256
            &&& w == Width::Word ==> after[at + 3] as int == val as int / 65536 / 256
            &&& i < at || i >= at + (match w {
                Width::Byte => 1int,
                Width::Half => 2int,
                Width::Word => 4int,
            }) ==> after[i] == s[i]
        }),
{
}

/// An image that is laid over a memory replaces the bytes from its start on,
/// as far as the memory goes, and no other.
pub proof fn law_overlays(s: Seq<u8>, at: int, data: Seq<u8>, i: int)
    requires
        0 <= at,
        0 <= i < s.len(),
    ensures
        overlaid(s, at, data).len() == s.len(),
        at <= i && i - at < data.len() ==> overlaid(s, at, data)[i] == data[i - at],
        i < at || i - at >= data.len() ==> overlaid(s, at, data)[i] == s[i],
{
}

/// The start of SRAM on the bus is the start of the memory behind it, at every
/// width.
pub proof fn law_sram_place(b: BusState, at: int, val: u32)
    requires
        0 <= at,
        at + 4 <= b.memory.sram.len() <= 0x1000_0000,
    ensures
        ({
            let addr = (0x2000_0000 + at) as u32;
            let s = b.memory.sram;
            &&& b.value_at(addr, Width::Byte) == s[at]
            &&& b.value_at(addr, Width::Half) == s[at] + 256 * s[at + 1]
            &&& b.value_at(addr, Width::Word) == s[at] + 256 * (s[at + 1] + 256 * (s[at + 2] + 256 * s[at + 3]))
            &&& b.after_write(addr, Width::Byte, val).memory.sram[at] as int == val as int % 256
            &&& b.after_write(addr, Width::Word, val).memory.sram[at] as int == val as int % 256
            &&& b.after_write(addr, Width::Word, val).memory.sram[at + 3] as int == val as int / 0x100_0000
        }),
{
    let addr = (0x2000_0000 + at) as u32;
    law_sram_read(b, addr, Width::Byte);
    law_sram_read(b, addr, Width::Half);
    law_sram_read(b, addr, Width::Word);
    law_sram_write(b, addr, Width::Byte, val);
    law_sram_write(b, addr, Width::Word, val);
}

} // verus!
