//! The bytes that a planted vector table leaves in memory.
use vstd::prelude::*;

use crate::bus::laws::{in_sram, law_sram_write};
use crate::bus::model::BusState;
use crate::fixtures::{shared_vectors_written, table_planted};
use crate::memory::{law_load_after_store, Width, SRAM_SIZE};

verus! {

/// Byte `k` of a word, the lowest first.
pub open spec fn byte_of(v: u32, k: int) -> u8 {
    (if k == 0 {
        v % 0x100
    } else if k == 1 {
        v / 0x100 % 0x100
    } else if k == 2 {
        v / 0x1_0000 % 0x100
    } else {
        v / 0x100_0000
    }) as u8
}

/// Byte `p` of SRAM once a table stands at offset `at`, where it was `before`.
pub open spec fn table_byte(at: int, vector: u32, p: int, before: u8) -> u8 {
    if at + 0x80 <= p < at + 0x82 {
        byte_of(0xBF00, p - at - 0x80)
    } else if at + 0x82 <= p < at + 0x84 {
        byte_of(0xE7FE, p - at - 0x82)
    } else if at + 0x100 <= p < at + 0x102 {
        byte_of(0xBF00, p - at - 0x100)
    } else if at + 0x102 <= p < at + 0x104 {
        byte_of(0xE7FE, p - at - 0x102)
    } else if at <= p < at + 4 {
        byte_of(0x2002_0000, p - at)
    } else if at + 4 <= p < at + 0xC0 {
        byte_of(vector, (p - at) % 4)
    } else {
        before
    }
}

/// A write inside SRAM, byte by byte.
proof fn lemma_written_bytes(b: BusState, addr: u32, w: Width, val: u32)
    requires
        in_sram(b, addr, w),
    ensures
        ({
            let at = addr - 0x2000_0000;
            let s = b.memory.sram;
            let after = b.after_write(addr, w, val).memory.sram;
            &&& after.len() == s.len()
            &&& forall|p: int|
                0 <= p < s.len() ==> #[trigger] after[p] == (if at <= p < at + w.bytes() {
                    byte_of(val, p - at)
                } else {
                    s[p]
                })
        }),
{
    law_sram_write(b, addr, w, val);
    law_load_after_store(b.memory.sram, addr - 0x2000_0000, w, val);
}

/// The bytes of the first `n` vectors.
proof fn lemma_vector_bytes(bus: BusState, base: u32, handler: u32, n: nat)
    requires
        1 <= n <= 48,
        bus.memory.sram.len() == SRAM_SIZE,
        0x2000_0000 <= base,
        base - 0x2000_0000 + 0x104 <= SRAM_SIZE,
    ensures
        ({
            let at = base - 0x2000_0000;
            let s = bus.memory.sram;
            let after = shared_vectors_written(bus, base, handler, n).memory.sram;
            &&& after.len() == SRAM_SIZE
            &&& forall|p: int|
                0 <= p < SRAM_SIZE ==> #[trigger] after[p] == (if at + 4 <= p < at + 4 * n {
                    byte_of(handler | 1, (p - at) % 4)
                } else {
                    s[p]
                })
        }),
    decreases n,
{
    if n > 1 {
        let m = (n - 1) as nat;
        lemma_vector_bytes(bus, base, handler, m);
        let before = shared_vectors_written(bus, base, handler, m);
        lemma_written_bytes(before, (base + 4 * m) as u32, Width::Word, handler | 1);
        let at = base - 0x2000_0000;
        let after = shared_vectors_written(bus, base, handler, n).memory.sram;
        assert forall|p: int| 0 <= p < SRAM_SIZE implies #[trigger] after[p] == (if at + 4 <= p < at + 4 * n {
            byte_of(handler | 1, (p - at) % 4)
        } else {
            bus.memory.sram[p]
        }) by {
            if at + 4 * m <= p < at + 4 * n {
                assert((p - at) % 4 == p - (at + 4 * m));
            }
        }
    }
}

/// All bytes of SRAM after a table has been planted.
pub proof fn lemma_planted_bytes(bus: BusState, base: u32)
    requires
        bus.memory.sram.len() == SRAM_SIZE,
        0x2000_0000 <= base,
        base - 0x2000_0000 + 0x104 <= SRAM_SIZE,
    ensures
        ({
            let at = base - 0x2000_0000;
            let after = table_planted(bus, base).memory.sram;
            &&& after.len() == SRAM_SIZE
            &&& forall|p: int|
                0 <= p < SRAM_SIZE ==> #[trigger] after[p] == table_byte(
                    at,
                    (base + 0x80) as u32 | 1,
                    p,
                    bus.memory.sram[p],
                )
        }),
{
    let handler = (base + 0x80) as u32;
    let b0 = bus.after_write(base, Width::Word, 0x2002_0000);
    lemma_written_bytes(bus, base, Width::Word, 0x2002_0000);
    let b1 = shared_vectors_written(b0, base, handler, 48);
    lemma_vector_bytes(b0, base, handler, 48);
    let b2 = b1.after_write(handler, Width::Half, 0xBF00);
    lemma_written_bytes(b1, handler, Width::Half, 0xBF00);
    let b3 = b2.after_write((base + 0x82) as u32, Width::Half, 0xE7FE);
    lemma_written_bytes(b2, (base + 0x82) as u32, Width::Half, 0xE7FE);
    let b4 = b3.after_write((base + 0x100) as u32, Width::Half, 0xBF00);
    lemma_written_bytes(b3, (base + 0x100) as u32, Width::Half, 0xBF00);
    lemma_written_bytes(b4, (base + 0x102) as u32, Width::Half, 0xE7FE);
}

} // verus!
