//! Pushing and popping.
use vstd::prelude::*;

use crate::bits::{bit, wadd, wsub};
use crate::bus::model::BusState;
use crate::cpu::execute::{list_loaded, list_stored, named_upto};
use crate::cpu::laws::{lemma_word_read, lemma_word_written, word_in};
use crate::cpu::registers::Registers;
use crate::cpu::CortexM0Plus;

verus! {

/// A named register counts towards everything above it.
pub proof fn lemma_named_grows(list: u32, i: nat, n: nat)
    requires
        i < n,
    ensures
        named_upto(list, i) + (if bit(list, i as int) {
            1nat
        } else {
            0nat
        }) <= named_upto(list, n),
        named_upto(list, n) <= n,
        named_upto(list, i) <= i,
    decreases n,
{
    if i == n - 1 {
        if i > 0 {
            lemma_named_grows(list, (i - 1) as nat, i);
        }
    } else {
        lemma_named_grows(list, i, (n - 1) as nat);
    }
}

/// The space that a list takes from `base` up lies inside SRAM.
pub open spec fn room_for(b: BusState, list: u32, base: u32) -> bool {
    let end = base + 4 * named_upto(list, 8);
    0x2000_0000 <= base && end <= 0x3000_0000 && end - 0x2000_0000 <= b.memory.sram.len()
}

/// Where a stored list's registers are in memory.
pub proof fn lemma_stored(bus: BusState, regs: Registers, list: u32, base: u32, n: nat)
    requires
        room_for(bus, list, base),
        n <= 8,
    ensures
        ({
            let (b, a) = list_stored(bus, regs, list, base, n);
            &&& a == base + 4 * named_upto(list, n)
            &&& b.memory.sram.len() == bus.memory.sram.len()
            &&& forall|i: nat|
                i < n && bit(list, i as int) ==> word_in(
                    b.memory.sram,
                    base - 0x2000_0000 + 4 * #[trigger] named_upto(list, i),
                ) == regs.r[i as int]
        }),
    decreases n,
{
    if n > 0 {
        let m = (n - 1) as nat;
        lemma_stored(bus, regs, list, base, m);
        let (b, a) = list_stored(bus, regs, list, base, m);
        let (b2, a2) = list_stored(bus, regs, list, base, n);
        lemma_named_grows(list, m, 8);
        if bit(list, m as int) {
            lemma_word_written(b, a, regs.r[m as int]);
            reveal(wadd);
            assert forall|i: nat| i < n && bit(list, i as int) implies word_in(
                b2.memory.sram,
                base - 0x2000_0000 + 4 * #[trigger] named_upto(list, i),
            ) == regs.r[i as int] by {
                if i < m {
                    lemma_named_grows(list, i, m);
                }
            }
        }
    }
}

/// What a loaded list's registers hold.
pub proof fn lemma_loaded(bus: BusState, regs: Registers, list: u32, base: u32, n: nat)
    requires
        room_for(bus, list, base),
        n <= 8,
    ensures
        ({
            let (r, b, a) = list_loaded(bus, regs, list, base, n);
            &&& a == base + 4 * named_upto(list, n)
            &&& b.memory.sram == bus.memory.sram
            &&& forall|i: int|
                0 <= i < 16 ==> #[trigger] r.r[i] == (if i < n && bit(list, i) {
                    word_in(bus.memory.sram, base - 0x2000_0000 + 4 * named_upto(list, i as nat))
                } else {
                    regs.r[i]
                })
        }),
    decreases n,
{
    if n > 0 {
        let m = (n - 1) as nat;
        lemma_loaded(bus, regs, list, base, m);
        let (r, b, a) = list_loaded(bus, regs, list, base, m);
        lemma_named_grows(list, m, 8);
        if bit(list, m as int) {
            lemma_word_read(b, a);
            reveal(wadd);
        }
    }
}

/// Popping a list gives back the registers that were pushed, whatever the
/// core has done with them in between, and puts the stack pointer back where
/// it was. The registers that the list does not name stay as they are.
pub proof fn law_pop_undoes_push(cpu: CortexM0Plus, bus: BusState, list: u16, later: CortexM0Plus)
    requires
        list < 0x100,
        cpu.regs.r[13] % 4 == 0,
        room_for(bus, list as u32, wsub(cpu.regs.r[13], (4 * named_upto(list as u32, 8)) as u32)),
        later.regs.r[13] == wsub(cpu.regs.r[13], (4 * named_upto(list as u32, 8)) as u32),
    ensures
        ({
            let pushed = cpu.push(bus, (0xB400 + list) as u16);
            let popped = later.pop(pushed.bus, (0xBC00 + list) as u16);
            &&& pushed.cpu.regs.r[13] == later.regs.r[13]
            &&& popped.cpu.regs.r[13] == cpu.regs.r[13]
            &&& forall|i: int|
                0 <= i < 8 ==> #[trigger] popped.cpu.regs.r[i] == (if bit(list as u32, i) {
                    cpu.regs.r[i]
                } else {
                    later.regs.r[i]
                })
        }),
{
    let l = list as u32;
    let count = named_upto(l, 8);
    let base = wsub(cpu.regs.r[13], (4 * count) as u32);
    reveal(wsub);
    lemma_named_grows(l, 7, 8);
    let (b, a) = list_stored(bus, cpu.regs, l, base, 8);
    lemma_stored(bus, cpu.regs, l, base, 8);
    lemma_loaded(b, later.regs, l, base, 8);
    let pushed = cpu.push(bus, (0xB400 + list) as u16);
    assert(pushed.bus == b && pushed.cpu.regs.r[13] == base) by {
        reveal(CortexM0Plus::push);
    }
    let popped = later.pop(b, (0xBC00 + list) as u16);
    let r = list_loaded(b, later.regs, l, base, 8).0;
    assert(popped.cpu.regs == r.with_reg(13, list_loaded(b, later.regs, l, base, 8).2)) by {
        reveal(CortexM0Plus::pop);
    }
    assert forall|i: int| 0 <= i < 8 implies #[trigger] popped.cpu.regs.r[i] == (if bit(l, i) {
        cpu.regs.r[i]
    } else {
        later.regs.r[i]
    }) by {
        assert(r.r[i] == popped.cpu.regs.r[i]);
        assert(named_upto(l, i as nat) <= 8) by {
            lemma_named_grows(l, i as nat, 8);
        }
    }
}

} // verus!
