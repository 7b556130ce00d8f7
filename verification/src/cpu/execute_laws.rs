//! What the other instructions do: the ones on all registers, loads and
//! stores, branches, hints and special registers, from the encoding up.
use vstd::prelude::*;

use crate::bits::{signed, wadd};
use crate::bus::model::BusState;
use crate::cpu::alu::{complement, rev, rev16, sign_extend16, sign_extend8, sum};
use crate::cpu::alu_laws::{only_sets, past, ran, takes_away};
use crate::cpu::registers::Registers;
use crate::cpu::{CortexM0Plus, Effect, Fault};

verus! {

/// One instruction is a step of `past(cpu)`.
#[verifier::rlimit(40)]
pub proof fn lemma_ran(cpu: CortexM0Plus, bus: BusState, op: int)
    ensures
        ran(cpu, bus, op) == past(cpu).thumb16(bus, op as u16),
        past(cpu).regs.xpsr == cpu.regs.xpsr,
        past(cpu).current_instr_addr == cpu.regs.r[15],
        past(cpu).regs.r[15] == (cpu.regs.r[15] + 2) % 0x1_0000_0000,
        forall|k: int| 0 <= k < 15 ==> #[trigger] past(cpu).regs.r[k] == cpu.regs.r[k],
{
    reveal(CortexM0Plus::executed);
    reveal(wadd);
}

/// Nothing but the program counter, which moved on.
pub open spec fn moved_on(cpu: CortexM0Plus, after: CortexM0Plus) -> bool {
    &&& after == (CortexM0Plus { regs: after.regs, current_instr_addr: cpu.regs.r[15], ..cpu })
    &&& after.regs == (Registers { r: after.regs.r, ..cpu.regs })
    &&& after.regs.r[15] == (cpu.regs.r[15] + 2) % 0x1_0000_0000
    &&& forall|k: int| 0 <= k < 15 ==> #[trigger] after.regs.r[k] == cpu.regs.r[k]
}

/// The instruction was refused with a fault and did nothing else.
pub open spec fn faults(cpu: CortexM0Plus, bus: BusState, e: Effect, f: Fault) -> bool {
    &&& e.bus == bus
    &&& e.cycles == 1
    &&& e.cpu.pending_fault == Some(f)
    &&& moved_on(cpu, CortexM0Plus { pending_fault: cpu.pending_fault, ..e.cpu })
}

/// Sign and zero extension: the low byte or halfword, read as a signed or as
/// an unsigned number, is the number in the result; no flag changes.
#[verifier::rlimit(40)]
pub proof fn law_extension(cpu: CortexM0Plus, bus: BusState, d: int, m: int)
    requires
        0 <= d < 8,
        0 <= m < 8,
    ensures
        ({
            let x = cpu.regs.r[m] as int;
            let sxth = ran(cpu, bus, 0xB200 + 8 * m + d);
            let sxtb = ran(cpu, bus, 0xB240 + 8 * m + d);
            let uxth = ran(cpu, bus, 0xB280 + 8 * m + d);
            let uxtb = ran(cpu, bus, 0xB2C0 + 8 * m + d);
            &&& signed(sxth.cpu.regs.r[d]) == (x + 0x8000) % 0x1_0000 - 0x8000
            &&& signed(sxtb.cpu.regs.r[d]) == (x + 0x80) % 0x100 - 0x80
            &&& uxth.cpu.regs.r[d] == x % 0x1_0000
            &&& uxtb.cpu.regs.r[d] == x % 0x100
            &&& only_sets(cpu, bus, sxth, d) && sxth.cpu.regs.xpsr == cpu.regs.xpsr
            &&& only_sets(cpu, bus, sxtb, d) && sxtb.cpu.regs.xpsr == cpu.regs.xpsr
            &&& only_sets(cpu, bus, uxth, d) && uxth.cpu.regs.xpsr == cpu.regs.xpsr
            &&& only_sets(cpu, bus, uxtb, d) && uxtb.cpu.regs.xpsr == cpu.regs.xpsr
        }),
{
    lemma_extended(cpu, bus, 0, d, m);
    lemma_extended(cpu, bus, 1, d, m);
    lemma_extended(cpu, bus, 2, d, m);
    lemma_extended(cpu, bus, 3, d, m);
}

#[verifier::rlimit(40)]
proof fn lemma_extended(cpu: CortexM0Plus, bus: BusState, kind: int, d: int, m: int)
    requires
        0 <= kind < 4,
        0 <= d < 8,
        0 <= m < 8,
    ensures
        ({
            let e = ran(cpu, bus, 0xB200 + 64 * kind + 8 * m + d);
            let x = cpu.regs.r[m];
            &&& only_sets(cpu, bus, e, d) && e.cpu.regs.xpsr == cpu.regs.xpsr
            &&& e.cpu.regs.r[d] == (if kind == 0 {
                sign_extend16(x)
            } else if kind == 1 {
                sign_extend8(x)
            } else if kind == 2 {
                x % 0x1_0000
            } else {
                x % 0x100
            })
        }),
{
    let op = (0xB200 + 64 * kind + 8 * m + d) as u16;
    lemma_two_fields(0xB2, kind, d, m);
    lemma_ran(cpu, bus, op as int);
    reveal(CortexM0Plus::thumb16);
    reveal(CortexM0Plus::misc);
}

#[verifier::rlimit(40)]
proof fn lemma_two_fields(top: int, kind: int, d: int, m: int)
    requires
        0 <= top < 0x100,
        0 <= kind < 4,
        0 <= d < 8,
        0 <= m < 8,
    ensures
        ({
            let op = (0x100 * top + 64 * kind + 8 * m + d) as u16;
            &&& op % 8 == d && op / 8 % 8 == m && op / 64 % 4 == kind && op / 0x100 == top
            &&& op / 0x800 == top / 8 && op / 0x100 % 16 == top % 16
        }),
{
    let low = 8 * m + d;
    let op = (0x100 * top + 64 * kind + low) as u16;
    assert(op / 8 == 32 * top + 8 * kind + m);
    assert(op / 64 == 4 * top + kind);
}

/// Byte `k` of a word, from the low end.
pub open spec fn byte(x: u32, k: int) -> int {
    if k == 0 {
        x as int % 0x100
    } else if k == 1 {
        x as int / 0x100 % 0x100
    } else if k == 2 {
        x as int / 0x1_0000 % 0x100
    } else {
        x as int / 0x100_0000
    }
}

/// Byte reversal: of the word, of each halfword, and of the low halfword read
/// as a signed number.
#[verifier::rlimit(40)]
pub proof fn law_reversal_of_bytes(cpu: CortexM0Plus, bus: BusState, d: int, m: int)
    requires
        0 <= d < 8,
        0 <= m < 8,
    ensures
        ({
            let x = cpu.regs.r[m];
            let r = ran(cpu, bus, 0xBA00 + 8 * m + d);
            let r16 = ran(cpu, bus, 0xBA40 + 8 * m + d);
            let rsh = ran(cpu, bus, 0xBAC0 + 8 * m + d);
            let a = r.cpu.regs.r[d];
            let b = r16.cpu.regs.r[d];
            &&& byte(a, 0) == byte(x, 3) && byte(a, 1) == byte(x, 2) && byte(a, 2) == byte(x, 1) && byte(a, 3)
                == byte(x, 0)
            &&& byte(b, 0) == byte(x, 1) && byte(b, 1) == byte(x, 0) && byte(b, 2) == byte(x, 3) && byte(b, 3)
                == byte(x, 2)
            &&& signed(rsh.cpu.regs.r[d]) == (byte(x, 0) * 0x100 + byte(x, 1) + 0x8000) % 0x1_0000 - 0x8000
            &&& only_sets(cpu, bus, r, d) && r.cpu.regs.xpsr == cpu.regs.xpsr
            &&& only_sets(cpu, bus, r16, d) && r16.cpu.regs.xpsr == cpu.regs.xpsr
            &&& only_sets(cpu, bus, rsh, d) && rsh.cpu.regs.xpsr == cpu.regs.xpsr
        }),
{
    lemma_reversed(cpu, bus, 0, d, m);
    lemma_reversed(cpu, bus, 1, d, m);
    lemma_reversed(cpu, bus, 3, d, m);
    lemma_bytes(cpu.regs.r[m]);
}

proof fn lemma_bytes(x: u32)
    by (bit_vector)
    ensures
        rev(x) % 0x100 == x / 0x100_0000,
        rev(x) / 0x100 % 0x100 == x / 0x1_0000 % 0x100,
        rev(x) / 0x1_0000 % 0x100 == x / 0x100 % 0x100,
        rev(x) / 0x100_0000 == x % 0x100,
        rev16(x) % 0x100 == x / 0x100 % 0x100,
        rev16(x) / 0x100 % 0x100 == x % 0x100,
        rev16(x) / 0x1_0000 % 0x100 == x / 0x100_0000,
        rev16(x) / 0x100_0000 == x / 0x1_0000 % 0x100,
        rev16(x) % 0x1_0000 == x % 0x100 * 0x100 + x / 0x100 % 0x100,
{
}

#[verifier::rlimit(40)]
proof fn lemma_reversed(cpu: CortexM0Plus, bus: BusState, kind: int, d: int, m: int)
    requires
        kind == 0 || kind == 1 || kind == 3,
        0 <= d < 8,
        0 <= m < 8,
    ensures
        ({
            let e = ran(cpu, bus, 0xBA00 + 64 * kind + 8 * m + d);
            let x = cpu.regs.r[m];
            &&& only_sets(cpu, bus, e, d) && e.cpu.regs.xpsr == cpu.regs.xpsr
            &&& e.cpu.regs.r[d] == (if kind == 0 {
                rev(x)
            } else if kind == 1 {
                rev16(x)
            } else {
                sign_extend16(rev16(x))
            })
        }),
{
    let op = (0xBA00 + 64 * kind + 8 * m + d) as u16;
    lemma_two_fields(0xBA, kind, d, m);
    lemma_ran(cpu, bus, op as int);
    reveal(CortexM0Plus::thumb16);
    reveal(CortexM0Plus::misc);
}

/// A register as an operand: the program counter reads four ahead of the
/// instruction.
pub open spec fn reads_as(cpu: CortexM0Plus, k: int) -> int {
    if k == 15 {
        (cpu.regs.r[15] + 4) % 0x1_0000_0000
    } else {
        cpu.regs.r[k] as int
    }
}

/// A branch to `target` that took `cycles`, with nothing else changed but the
/// registers listed.
pub open spec fn goes_to(cpu: CortexM0Plus, bus: BusState, e: Effect, target: int, cycles: int) -> bool {
    &&& e.bus == bus
    &&& e.cycles == cycles
    &&& e.cpu.regs.r[15] == target
    &&& e.cpu == (CortexM0Plus { regs: e.cpu.regs, current_instr_addr: cpu.regs.r[15], ..cpu })
    &&& e.cpu.regs == (Registers { r: e.cpu.regs.r, ..cpu.regs })
    &&& forall|k: int| 0 <= k < 14 ==> #[trigger] e.cpu.regs.r[k] == cpu.regs.r[k]
}

#[verifier::rlimit(40)]
proof fn lemma_special_fields(kind: int, d: int, m: int)
    requires
        0 <= kind < 4,
        0 <= d < 16,
        0 <= m < 16,
    ensures
        ({
            let op = (0x4400 + 0x100 * kind + 128 * (d / 8) + 8 * m + d % 8) as u16;
            &&& op % 8 + 8 * (op / 128 % 2) == d && op / 8 % 16 == m && op / 0x100 % 4 == kind
            &&& op / 0x800 == 8 && op / 0x400 % 2 == 1 && op / 128 % 2 == d / 8
        }),
{
    let op = (0x4400 + 0x100 * kind + 128 * (d / 8) + 8 * m + d % 8) as u16;
    assert(op / 8 == 0x880 + 0x20 * kind + 16 * (d / 8) + m);
    assert(op / 128 == 0x88 + 2 * kind + d / 8);
    assert(op / 0x100 == 0x44 + kind);
    assert(op / 0x400 == 0x11);
}

#[verifier::rlimit(40)]
proof fn lemma_special(cpu: CortexM0Plus, bus: BusState, kind: int, d: int, m: int)
    requires
        0 <= kind < 4,
        0 <= d < 16,
        0 <= m < 16,
    ensures
        ran(cpu, bus, 0x4400 + 0x100 * kind + 128 * (d / 8) + 8 * m + d % 8) == past(cpu).special(
            bus,
            (0x4400 + 0x100 * kind + 128 * (d / 8) + 8 * m + d % 8) as u16,
        ),
        past(cpu).operand(d) == reads_as(cpu, d),
        past(cpu).operand(m) == reads_as(cpu, m),
{
    let op = (0x4400 + 0x100 * kind + 128 * (d / 8) + 8 * m + d % 8) as u16;
    lemma_special_fields(kind, d, m);
    lemma_ran(cpu, bus, op as int);
    reveal(wadd);
    reveal(CortexM0Plus::thumb16);
}

/// `add` and `mov` on any two registers, with no flags; into the program
/// counter they branch, to an even address.
#[verifier::rlimit(40)]
pub proof fn law_high_registers(cpu: CortexM0Plus, bus: BusState, d: int, m: int)
    requires
        0 <= d < 16,
        0 <= m < 16,
    ensures
        ({
            let a = reads_as(cpu, d);
            let b = reads_as(cpu, m);
            let total = (a + b) % 0x1_0000_0000;
            let adds = ran(cpu, bus, 0x4400 + 128 * (d / 8) + 8 * m + d % 8);
            let movs = ran(cpu, bus, 0x4600 + 128 * (d / 8) + 8 * m + d % 8);
            &&& d != 15 ==> adds.cpu.regs.r[d] == total && only_sets(cpu, bus, adds, d) && adds.cpu.regs.xpsr
                == cpu.regs.xpsr
            &&& d != 15 ==> movs.cpu.regs.r[d] == b && only_sets(cpu, bus, movs, d) && movs.cpu.regs.xpsr
                == cpu.regs.xpsr
            &&& d == 15 ==> goes_to(cpu, bus, adds, total - total % 2, 3) && adds.cpu.regs.r[14] == cpu.regs.r[14]
            &&& d == 15 ==> goes_to(cpu, bus, movs, b - b % 2, 3) && movs.cpu.regs.r[14] == cpu.regs.r[14]
        }),
{
    lemma_special(cpu, bus, 0, d, m);
    lemma_special(cpu, bus, 2, d, m);
    lemma_special_fields(0, d, m);
    lemma_special_fields(2, d, m);
    reveal(CortexM0Plus::special);
    reveal(wadd);
    crate::bus::laws::lemma_region(past(cpu).operand(m));
    crate::bus::laws::lemma_region(wadd(past(cpu).operand(d), past(cpu).operand(m)));
}

/// `cmp` on any two registers.
#[verifier::rlimit(40)]
pub proof fn law_high_compare(cpu: CortexM0Plus, bus: BusState, d: int, m: int)
    requires
        0 <= d < 16,
        0 <= m < 16,
    ensures
        ({
            let e = ran(cpu, bus, 0x4500 + 128 * (d / 8) + 8 * m + d % 8);
            &&& only_sets(cpu, bus, e, -1)
            &&& exists|v: u32| #[trigger]
                takes_away(e.cpu.regs.xpsr, v, reads_as(cpu, d) as u32, reads_as(cpu, m) as u32)
        }),
{
    lemma_special(cpu, bus, 1, d, m);
    lemma_special_fields(1, d, m);
    reveal(CortexM0Plus::special);
    let a = past(cpu).operand(d);
    let b = past(cpu).operand(m);
    crate::cpu::alu_laws::lemma_adds_up(a, b, true);
    crate::cpu::alu_laws::lemma_sum(cpu, bus, 0, sum(a, complement(b), true));
    let e = ran(cpu, bus, 0x4500 + 128 * (d / 8) + 8 * m + d % 8);
    assert(a == reads_as(cpu, d) as u32 && b == reads_as(cpu, m) as u32);
    let v = sum(a, complement(b), true).result;
    assert(takes_away(e.cpu.regs.xpsr, v, reads_as(cpu, d) as u32, reads_as(cpu, m) as u32));
}

/// `bx` and `blx` outside a handler: to an odd address they go, with the link
/// register naming the next instruction after `blx`; an even one is refused.
#[verifier::rlimit(40)]
pub proof fn law_register_branches(cpu: CortexM0Plus, bus: BusState, m: int)
    requires
        0 <= m < 16,
        cpu.regs.xpsr & 0x1FF == 0,
        cpu.regs.r[15] % 2 == 0,
    ensures
        ({
            let t = reads_as(cpu, m);
            let bx = ran(cpu, bus, 0x4700 + 8 * m);
            let blx = ran(cpu, bus, 0x4780 + 8 * m);
            &&& t % 2 == 1 ==> goes_to(cpu, bus, bx, t - 1, 3) && bx.cpu.regs.r[14] == cpu.regs.r[14]
            &&& t % 2 == 1 ==> goes_to(cpu, bus, blx, t - 1, 3) && blx.cpu.regs.r[14] == (cpu.regs.r[15] + 2)
                % 0x1_0000_0000 + 1
            &&& t % 2 == 0 ==> faults(cpu, bus, bx, Fault::InvalidEpsr)
            &&& t % 2 == 0 ==> faults(cpu, bus, blx, Fault::InvalidEpsr)
        }),
{
    lemma_special(cpu, bus, 3, 0, m);
    lemma_special(cpu, bus, 3, 8, m);
    lemma_special_fields(3, 0, m);
    lemma_special_fields(3, 8, m);
    lemma_ran(cpu, bus, 0);
    reveal(CortexM0Plus::special);
    reveal(CortexM0Plus::interworked);
    reveal(wadd);
    crate::bus::laws::lemma_region(past(cpu).operand(m));
    crate::cpu::laws::lemma_link_bit(wadd(cpu.regs.r[15], 2));
}

} // verus!
