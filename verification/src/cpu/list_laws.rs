//! What the instructions on lists of registers store and load, from the
//! encoding up.
use vstd::prelude::*;

use crate::bits::{bit, wsub};
use crate::bus::laws::law_sram_read;
use crate::bus::model::BusState;
use crate::cpu::access_laws::{lemma_misc, lemma_sum_of};
use crate::cpu::alu_laws::{past, ran};
use crate::cpu::execute::{list_loaded, list_stored, named_upto};
use crate::cpu::execute_laws::{faults, lemma_ran};
use crate::cpu::laws::{lemma_word_written, word_in};
use crate::cpu::stack_laws::{lemma_loaded, lemma_named_grows, lemma_stored};
use crate::cpu::{CortexM0Plus, Fault};
use crate::memory::Width;

verus! {

/// One where register `i` is named and below `k`.
pub open spec fn one_if(list: u32, i: int, k: int) -> int {
    if i < k && bit(list, i) {
        1
    } else {
        0
    }
}

/// How many registers below `k` a list names.
#[verifier::opaque]
pub open spec fn named_below(list: u32, k: int) -> int {
    one_if(list, 0, k) + one_if(list, 1, k) + one_if(list, 2, k) + one_if(list, 3, k) + one_if(list, 4, k) + one_if(
        list,
        5,
        k,
    ) + one_if(list, 6, k) + one_if(list, 7, k)
}

#[verifier::rlimit(40)]
proof fn lemma_named(list: u32, k: nat)
    requires
        k <= 8,
    ensures
        named_upto(list, k) == named_below(list, k as int),
        0 <= named_below(list, k as int) <= 8,
    decreases k,
{
    reveal(named_below);
    if k > 0 {
        lemma_named(list, (k - 1) as nat);
    }
}

/// A run of `words` words from `base` up lies inside SRAM.
pub open spec fn words_in_sram(b: BusState, base: int, words: int) -> bool {
    0x2000_0000 <= base && base + 4 * words <= 0x3000_0000 && base + 4 * words - 0x2000_0000 <= b.memory.sram.len()
}

#[verifier::rlimit(40)]
proof fn lemma_word_value(b: BusState, addr: int)
    requires
        words_in_sram(b, addr, 1),
    ensures
        b.value_at(addr as u32, Width::Word) == word_in(b.memory.sram, addr - 0x2000_0000),
{
    reveal(word_in);
    law_sram_read(b, addr as u32, Width::Word);
}

/// `stm` stores the named registers upwards from the base, lowest first, and
/// moves the base past them.
#[verifier::rlimit(40)]
pub proof fn law_store_multiple(cpu: CortexM0Plus, bus: BusState, n: int, list: u32, k: int)
    requires
        0 <= n < 8,
        list < 256,
        0 <= k < 8,
        cpu.regs.r[n] % 4 == 0,
        words_in_sram(bus, cpu.regs.r[n] as int, named_below(list, 8)),
    ensures
        ({
            let e = ran(cpu, bus, 0xC000 + 0x100 * n + list);
            let base = cpu.regs.r[n];
            &&& bit(list, k) ==> e.bus.value_at((base + 4 * named_below(list, k)) as u32, Width::Word) == cpu.regs.r[k]
            &&& e.cpu.regs.r[n] == base + 4 * named_below(list, 8)
            &&& k != n ==> e.cpu.regs.r[k] == cpu.regs.r[k]
            &&& e.cpu.regs.xpsr == cpu.regs.xpsr && e.cpu.pending_fault == cpu.pending_fault
            &&& e.cycles == 1 + named_below(list, 8)
        }),
{
    let c = past(cpu);
    let base = cpu.regs.r[n];
    lemma_multiple(cpu, bus, 0xC000 + 0x100 * n + list);
    lemma_ran(cpu, bus, 0);
    lemma_named(list, 8);
    lemma_named(list, k as nat);
    lemma_named_grows(list, k as nat, 8);
    lemma_stored(bus, c.regs, list, base, 8);
    let op = (0xC000 + 0x100 * n + list) as u16;
    assert(op / 0x100 % 8 == n && op % 0x100 == list && op / 0x800 % 2 == 0);
    assert(ran(cpu, bus, op as int) == c.multiple(bus, op));
    let b = list_stored(bus, c.regs, list, base, 8).0;
    assert(c.multiple(bus, op).bus == b && c.multiple(bus, op).cpu.regs == c.regs.with_reg(
        n,
        list_stored(bus, c.regs, list, base, 8).1,
    ) && c.multiple(bus, op).cycles == 1 + named_upto(list, 8) && c.multiple(bus, op).cpu.pending_fault
        == cpu.pending_fault) by {
        reveal(CortexM0Plus::multiple);
    }
    if bit(list, k) {
        lemma_word_value(b, base + 4 * named_below(list, k));
        assert(named_upto(list, k as nat) == named_below(list, k));
    }
}

#[verifier::rlimit(40)]
proof fn lemma_multiple(cpu: CortexM0Plus, bus: BusState, op: int)
    requires
        0xC000 <= op < 0xD000,
    ensures
        ran(cpu, bus, op) == past(cpu).multiple(bus, op as u16),
{
    lemma_ran(cpu, bus, op);
    reveal(CortexM0Plus::thumb16);
}

/// `ldm` loads the named registers upwards from the base, lowest first, and
/// moves the base past them unless it loaded it.
#[verifier::rlimit(40)]
pub proof fn law_load_multiple(cpu: CortexM0Plus, bus: BusState, n: int, list: u32, k: int)
    requires
        0 <= n < 8,
        list < 256,
        0 <= k < 8,
        cpu.regs.r[n] % 4 == 0,
        words_in_sram(bus, cpu.regs.r[n] as int, named_below(list, 8)),
    ensures
        ({
            let e = ran(cpu, bus, 0xC800 + 0x100 * n + list);
            let base = cpu.regs.r[n];
            &&& e.cpu.regs.r[k] == (if bit(list, k) {
                bus.value_at((base + 4 * named_below(list, k)) as u32, Width::Word) as int
            } else if k == n {
                base + 4 * named_below(list, 8)
            } else {
                cpu.regs.r[k] as int
            })
            &&& e.cpu.regs.xpsr == cpu.regs.xpsr && e.cpu.pending_fault == cpu.pending_fault
            &&& e.bus.memory == bus.memory
            &&& e.cycles == 1 + named_below(list, 8)
        }),
{
    let c = past(cpu);
    let base = cpu.regs.r[n];
    let op = (0xC800 + 0x100 * n + list) as u16;
    lemma_multiple(cpu, bus, op as int);
    lemma_ran(cpu, bus, 0);
    lemma_named(list, 8);
    lemma_named(list, k as nat);
    lemma_named_grows(list, k as nat, 8);
    lemma_loaded(bus, c.regs, list, base, 8);
    lemma_memory_stays(bus, c.regs, list, base, 8);
    assert(op / 0x100 % 8 == n && op % 0x100 == list && op / 0x800 % 2 == 1);
    let (r, b, a) = list_loaded(bus, c.regs, list, base, 8);
    assert(r.xpsr == c.regs.xpsr);
    assert(c.multiple(bus, op).bus == b && c.multiple(bus, op).cpu.regs == (if bit(list, n) {
        r
    } else {
        r.with_reg(n, a)
    }) && c.multiple(bus, op).cycles == 1 + named_upto(list, 8) && c.multiple(bus, op).cpu.pending_fault
        == cpu.pending_fault) by {
        reveal(CortexM0Plus::multiple);
    }
    if bit(list, k) {
        lemma_word_value(bus, base + 4 * named_below(list, k));
    }
}

#[verifier::rlimit(40)]
proof fn lemma_memory_stays(bus: BusState, regs: crate::cpu::registers::Registers, list: u32, base: u32, n: nat)
    ensures
        list_loaded(bus, regs, list, base, n).1.memory == bus.memory,
        list_loaded(bus, regs, list, base, n).0.xpsr == regs.xpsr,
    decreases n,
{
    if n > 0 {
        lemma_memory_stays(bus, regs, list, base, (n - 1) as nat);
        let (r, b, a) = list_loaded(bus, regs, list, base, (n - 1) as nat);
        crate::bus::laws::law_reads_leave_memory_alone(b, a, Width::Word);
    }
}

/// `push` stores the named registers, and above them the link register if it
/// is asked for, below the stack pointer, which moves down to them.
#[verifier::rlimit(40)]
pub proof fn law_push(cpu: CortexM0Plus, bus: BusState, list: u32, link: bool, k: int)
    requires
        list < 256,
        0 <= k < 8,
        cpu.regs.r[13] % 4 == 0,
        cpu.regs.r[13] >= 64,
        words_in_sram(
            bus,
            cpu.regs.r[13] - 4 * (named_below(list, 8) + (if link {
                1int
            } else {
                0
            })),
            named_below(list, 8) + (if link {
                1int
            } else {
                0
            }),
        ),
    ensures
        ({
            let extra = if link {
                1int
            } else {
                0
            };
            let e = ran(cpu, bus, 0xB400 + 0x100 * extra + list);
            let count = named_below(list, 8) + extra;
            let low = cpu.regs.r[13] - 4 * count;
            &&& e.cpu.regs.r[13] == low
            &&& bit(list, k) ==> e.bus.value_at((low + 4 * named_below(list, k)) as u32, Width::Word) == cpu.regs.r[k]
            &&& link ==> e.bus.value_at((low + 4 * named_below(list, 8)) as u32, Width::Word) == cpu.regs.r[14]
            &&& e.cpu.regs.r[k] == cpu.regs.r[k]
            &&& e.cycles == 1 + count
        }),
{
    let extra = if link {
        1int
    } else {
        0
    };
    let c = past(cpu);
    let op = (0xB400 + 0x100 * extra + list) as u16;
    lemma_misc(cpu, bus, op as int);
    lemma_ran(cpu, bus, 0);
    lemma_named(list, 8);
    lemma_named(list, k as nat);
    lemma_named_grows(list, k as nat, 8);
    let count = named_below(list, 8) + extra;
    let base = wsub(cpu.regs.r[13], (4 * count) as u32);
    lemma_sum_of(cpu.regs.r[13], (4 * count) as u32);
    lemma_stored(bus, c.regs, list, base, 8);
    assert(op % 0x100 == list && op / 0x100 % 2 == extra && (op / 0x100 % 16 == 4 || op / 0x100 % 16 == 5));
    assert(ran(cpu, bus, op as int) == c.push(bus, op)) by {
        reveal(CortexM0Plus::misc);
    }
    let (b, a) = list_stored(bus, c.regs, list, base, 8);
    let after = if link {
        b.after_write(a, Width::Word, c.regs.r[14])
    } else {
        b
    };
    let e = c.push(bus, op);
    assert(e.bus == after && e.cpu.regs == c.regs.with_reg(13, base) && e.cycles == 1 + count) by {
        reveal(CortexM0Plus::push);
    }
    if link {
        lemma_word_written(b, a, c.regs.r[14]);
        lemma_word_value(after, a as int);
    }
    if bit(list, k) {
        lemma_word_value(after, base + 4 * named_below(list, k));
        assert(named_upto(list, k as nat) == named_below(list, k));
    }
}

/// `pop` loads the named registers from the stack pointer up and moves it past
/// them. With the program counter in the list, outside a handler, the next
/// word is where it goes on, if that is a Thumb address.
#[verifier::rlimit(40)]
pub proof fn law_pop(cpu: CortexM0Plus, bus: BusState, list: u32, k: int)
    requires
        list < 256,
        0 <= k < 8,
        cpu.regs.r[13] % 4 == 0,
        words_in_sram(bus, cpu.regs.r[13] as int, named_below(list, 8) + 1),
        cpu.regs.xpsr & 0x1FF == 0,
    ensures
        ({
            let count = named_below(list, 8);
            let sp = cpu.regs.r[13];
            let e = ran(cpu, bus, 0xBC00 + list);
            let with_pc = ran(cpu, bus, 0xBD00 + list);
            let target = bus.value_at((sp + 4 * count) as u32, Width::Word);
            let loaded = if bit(list, k) {
                bus.value_at((sp + 4 * named_below(list, k)) as u32, Width::Word)
            } else {
                cpu.regs.r[k]
            };
            &&& e.cpu.regs.r[k] == loaded && with_pc.cpu.regs.r[k] == loaded
            &&& e.cpu.regs.r[13] == sp + 4 * count && with_pc.cpu.regs.r[13] == sp + 4 * count + 4
            &&& e.cycles == 1 + count
            &&& target % 2 == 1 ==> with_pc.cpu.regs.r[15] == target - 1 && with_pc.cycles == 5 + count
                && with_pc.cpu.pending_fault == cpu.pending_fault
            &&& target % 2 == 0 ==> with_pc.cpu.pending_fault == Some(Fault::InvalidEpsr)
        }),
{
    let c = past(cpu);
    let op = (0xBC00 + list) as u16;
    let op2 = (0xBD00 + list) as u16;
    let sp = cpu.regs.r[13];
    lemma_misc(cpu, bus, op as int);
    lemma_misc(cpu, bus, op2 as int);
    lemma_ran(cpu, bus, 0);
    lemma_named(list, 8);
    lemma_named(list, k as nat);
    lemma_named_grows(list, k as nat, 8);
    lemma_loaded(bus, c.regs, list, sp, 8);
    lemma_memory_stays(bus, c.regs, list, sp, 8);
    assert(op % 0x100 == list && op / 0x100 % 2 == 0 && op / 0x100 % 16 == 12);
    assert(op2 % 0x100 == list && op2 / 0x100 % 2 == 1 && op2 / 0x100 % 16 == 13);
    assert(ran(cpu, bus, op as int) == c.pop(bus, op) && ran(cpu, bus, op2 as int) == c.pop(bus, op2)) by {
        reveal(CortexM0Plus::misc);
    }
    let (r, b, a) = list_loaded(bus, c.regs, list, sp, 8);
    lemma_sum_of(a, 4);
    lemma_word_value(bus, a as int);
    lemma_word_value(b, a as int);
    crate::bus::laws::lemma_region(b.value_at(a, Width::Word));
    assert(r.r[k] == (if bit(list, k) {
        word_in(bus.memory.sram, sp - 0x2000_0000 + 4 * named_upto(list, k as nat))
    } else {
        cpu.regs.r[k]
    }));
    if bit(list, k) {
        lemma_word_value(bus, sp + 4 * named_below(list, k));
    }
    reveal(CortexM0Plus::pop);
    reveal(CortexM0Plus::interworked);
}

/// A list instruction whose base is not a multiple of four is refused.
#[verifier::rlimit(40)]
pub proof fn law_lists_are_aligned(cpu: CortexM0Plus, bus: BusState, n: int, list: u32)
    requires
        0 <= n < 8,
        list < 256,
    ensures
        cpu.regs.r[n] % 4 != 0 ==> faults(cpu, bus, ran(cpu, bus, 0xC000 + 0x100 * n + list), Fault::Unaligned)
            && faults(cpu, bus, ran(cpu, bus, 0xC800 + 0x100 * n + list), Fault::Unaligned),
        cpu.regs.r[13] % 4 != 0 ==> faults(cpu, bus, ran(cpu, bus, 0xBC00 + list), Fault::Unaligned),
{
    let a = (0xC000 + 0x100 * n + list) as u16;
    let b = (0xC800 + 0x100 * n + list) as u16;
    let c = (0xBC00 + list) as u16;
    assert(a / 0x100 % 8 == n && b / 0x100 % 8 == n);
    lemma_multiple(cpu, bus, a as int);
    lemma_multiple(cpu, bus, b as int);
    lemma_misc(cpu, bus, c as int);
    lemma_ran(cpu, bus, 0);
    assert(ran(cpu, bus, c as int) == past(cpu).pop(bus, c)) by {
        reveal(CortexM0Plus::misc);
    }
    reveal(CortexM0Plus::multiple);
    reveal(CortexM0Plus::pop);
}

} // verus!
