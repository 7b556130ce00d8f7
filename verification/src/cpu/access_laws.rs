//! What loads, stores, branches, hints and special registers do, from the
//! encoding up.
use vstd::prelude::*;

use crate::bits::{wadd, wsub};
use crate::bus::model::BusState;
use crate::cpu::alu_laws::{flags, only_sets, past, ran};
use crate::cpu::decode::DecodedOp;
use crate::cpu::execute_laws::{faults, goes_to, lemma_ran, moved_on};
use crate::cpu::registers::Registers;
use crate::cpu::{CortexM0Plus, Effect, Fault};
use crate::memory::Width;

verus! {

/// A load of `w` bytes at `addr` put `v` into register `t`: in two cycles, with
/// nothing else changed. An address that is not a multiple of the size is
/// refused.
pub open spec fn loads(cpu: CortexM0Plus, bus: BusState, e: Effect, addr: int, w: Width, t: int, v: int) -> bool {
    if addr % w.bytes() != 0 {
        faults(cpu, bus, e, Fault::Unaligned)
    } else {
        &&& e.bus == bus.after_read(addr as u32, w)
        &&& e.cycles == 2
        &&& e.cpu.regs.r[t] == v
        &&& only_sets(cpu, bus, Effect { bus, cycles: 1, ..e }, t)
        &&& e.cpu.regs.xpsr == cpu.regs.xpsr
    }
}

/// A store of the low `w` bytes of `v` at `addr`, in two cycles, with no
/// register changed.
pub open spec fn stores(cpu: CortexM0Plus, bus: BusState, e: Effect, addr: int, w: Width, v: u32) -> bool {
    if addr % w.bytes() != 0 {
        faults(cpu, bus, e, Fault::Unaligned)
    } else {
        let cut = match w {
            Width::Byte => v % 0x100,
            Width::Half => v % 0x1_0000,
            Width::Word => v,
        };
        &&& e.bus == bus.after_write(addr as u32, w, cut)
        &&& e.cycles == 2
        &&& moved_on(cpu, e.cpu)
    }
}

/// A number of one or two bytes, read as signed and widened.
pub open spec fn sign_widened(x: u32, w: Width) -> int {
    let bits = if w == Width::Byte {
        0x100int
    } else {
        0x1_0000int
    };
    let s = (x + bits / 2) % bits - bits / 2;
    s % 0x1_0000_0000
}

#[verifier::rlimit(40)]
proof fn lemma_loads(cpu: CortexM0Plus, bus: BusState, addr: u32, w: Width, t: int)
    requires
        0 <= t < 8,
    ensures
        loads(cpu, bus, past(cpu).loaded(bus, addr, w, false, t), addr as int, w, t, bus.value_at(addr, w) as int),
        w != Width::Word ==> loads(
            cpu,
            bus,
            past(cpu).loaded(bus, addr, w, true, t),
            addr as int,
            w,
            t,
            sign_widened(bus.value_at(addr, w), w),
        ),
{
    lemma_ran(cpu, bus, 0);
    reveal(CortexM0Plus::loaded);
}

#[verifier::rlimit(40)]
proof fn lemma_stores(cpu: CortexM0Plus, bus: BusState, addr: u32, w: Width, v: u32)
    ensures
        stores(cpu, bus, past(cpu).stored(bus, addr, w, v), addr as int, w, v),
{
    lemma_ran(cpu, bus, 0);
    reveal(CortexM0Plus::stored);
}

#[verifier::rlimit(40)]
proof fn lemma_register_fields(kind: int, m: int, n: int, t: int)
    requires
        0 <= kind < 8,
        0 <= m < 8,
        0 <= n < 8,
        0 <= t < 8,
    ensures
        ({
            let op = (0x5000 + 0x200 * kind + 64 * m + 8 * n + t) as u16;
            &&& op % 8 == t && op / 8 % 8 == n && op / 64 % 8 == m && op / 0x200 % 8 == kind
            &&& op / 0x800 == 10 + kind / 4
        }),
{
    let op = (0x5000 + 0x200 * kind + 64 * m + 8 * n + t) as u16;
    assert(op / 8 == 0xA00 + 0x40 * kind + 8 * m + n);
    assert(op / 64 == 0x140 + 8 * kind + m);
    assert(op / 0x200 == 0x28 + kind);
}

#[verifier::rlimit(40)]
proof fn lemma_register_access(cpu: CortexM0Plus, bus: BusState, kind: int, m: int, n: int, t: int)
    requires
        0 <= kind < 8,
        0 <= m < 8,
        0 <= n < 8,
        0 <= t < 8,
    ensures
        ran(cpu, bus, 0x5000 + 0x200 * kind + 64 * m + 8 * n + t) == past(cpu).ls_register(
            bus,
            (0x5000 + 0x200 * kind + 64 * m + 8 * n + t) as u16,
        ),
{
    let op = (0x5000 + 0x200 * kind + 64 * m + 8 * n + t) as u16;
    lemma_register_fields(kind, m, n, t);
    lemma_ran(cpu, bus, op as int);
    reveal(CortexM0Plus::thumb16);
}

/// The eight loads and stores at the sum of two registers.
#[verifier::rlimit(40)]
pub proof fn law_register_offset(cpu: CortexM0Plus, bus: BusState, m: int, n: int, t: int)
    requires
        0 <= m < 8,
        0 <= n < 8,
        0 <= t < 8,
    ensures
        ({
            let args = 64 * m + 8 * n + t;
            let addr = (cpu.regs.r[n] + cpu.regs.r[m]) % 0x1_0000_0000;
            let at = addr as u32;
            let v = cpu.regs.r[t];
            &&& stores(cpu, bus, ran(cpu, bus, 0x5000 + args), addr, Width::Word, v)
            &&& stores(cpu, bus, ran(cpu, bus, 0x5200 + args), addr, Width::Half, v)
            &&& stores(cpu, bus, ran(cpu, bus, 0x5400 + args), addr, Width::Byte, v)
            &&& loads(cpu, bus, ran(cpu, bus, 0x5600 + args), addr, Width::Byte, t, sign_widened(
                bus.value_at(at, Width::Byte),
                Width::Byte,
            ))
            &&& loads(cpu, bus, ran(cpu, bus, 0x5800 + args), addr, Width::Word, t, bus.value_at(
                at,
                Width::Word,
            ) as int)
            &&& loads(cpu, bus, ran(cpu, bus, 0x5A00 + args), addr, Width::Half, t, bus.value_at(
                at,
                Width::Half,
            ) as int)
            &&& loads(cpu, bus, ran(cpu, bus, 0x5C00 + args), addr, Width::Byte, t, bus.value_at(
                at,
                Width::Byte,
            ) as int)
            &&& loads(cpu, bus, ran(cpu, bus, 0x5E00 + args), addr, Width::Half, t, sign_widened(
                bus.value_at(at, Width::Half),
                Width::Half,
            ))
        }),
{
    let at = wadd(cpu.regs.r[n], cpu.regs.r[m]);
    let v = cpu.regs.r[t];
    lemma_ran(cpu, bus, 0);
    lemma_sum_of(cpu.regs.r[n], cpu.regs.r[m]);
    lemma_register_access_at(cpu, bus, 0, m, n, t);
    lemma_register_access_at(cpu, bus, 1, m, n, t);
    lemma_register_access_at(cpu, bus, 2, m, n, t);
    lemma_register_access_at(cpu, bus, 3, m, n, t);
    lemma_register_access_at(cpu, bus, 4, m, n, t);
    lemma_register_access_at(cpu, bus, 5, m, n, t);
    lemma_register_access_at(cpu, bus, 6, m, n, t);
    lemma_register_access_at(cpu, bus, 7, m, n, t);
    lemma_stores(cpu, bus, at, Width::Word, v);
    lemma_stores(cpu, bus, at, Width::Half, v);
    lemma_stores(cpu, bus, at, Width::Byte, v);
    lemma_loads(cpu, bus, at, Width::Word, t);
    lemma_loads(cpu, bus, at, Width::Half, t);
    lemma_loads(cpu, bus, at, Width::Byte, t);
}

#[verifier::rlimit(40)]
pub proof fn lemma_sum_of(a: u32, b: u32)
    ensures
        wadd(a, b) == (a + b) % 0x1_0000_0000,
        wsub(a, b) == (a - b) % 0x1_0000_0000,
{
    reveal(wadd);
    reveal(wsub);
}

#[verifier::rlimit(40)]
proof fn lemma_register_access_at(cpu: CortexM0Plus, bus: BusState, kind: int, m: int, n: int, t: int)
    requires
        0 <= kind < 8,
        0 <= m < 8,
        0 <= n < 8,
        0 <= t < 8,
    ensures
        ({
            let e = ran(cpu, bus, 0x5000 + 0x200 * kind + 64 * m + 8 * n + t);
            let at = wadd(cpu.regs.r[n], cpu.regs.r[m]);
            let c = past(cpu);
            let v = cpu.regs.r[t];
            e == (if kind == 0 {
                c.stored(bus, at, Width::Word, v)
            } else if kind == 1 {
                c.stored(bus, at, Width::Half, v)
            } else if kind == 2 {
                c.stored(bus, at, Width::Byte, v)
            } else if kind == 3 {
                c.loaded(bus, at, Width::Byte, true, t)
            } else if kind == 4 {
                c.loaded(bus, at, Width::Word, false, t)
            } else if kind == 5 {
                c.loaded(bus, at, Width::Half, false, t)
            } else if kind == 6 {
                c.loaded(bus, at, Width::Byte, false, t)
            } else {
                c.loaded(bus, at, Width::Half, true, t)
            })
        }),
{
    lemma_register_access(cpu, bus, kind, m, n, t);
    lemma_register_fields(kind, m, n, t);
    lemma_ran(cpu, bus, 0);
    reveal(CortexM0Plus::ls_register);
}

#[verifier::rlimit(40)]
proof fn lemma_immediate_fields(group: int, imm: int, n: int, t: int)
    requires
        12 <= group < 18,
        0 <= imm < 32,
        0 <= n < 8,
        0 <= t < 8,
    ensures
        ({
            let op = (0x800 * group + 64 * imm + 8 * n + t) as u16;
            op % 8 == t && op / 8 % 8 == n && op / 64 % 32 == imm && op / 0x800 == group
        }),
{
    let op = (0x800 * group + 64 * imm + 8 * n + t) as u16;
    assert(op / 8 == 0x100 * group + 8 * imm + n);
    assert(op / 64 == 0x20 * group + imm);
}

#[verifier::rlimit(40)]
proof fn lemma_immediate_access(cpu: CortexM0Plus, bus: BusState, group: int, imm: int, n: int, t: int)
    requires
        12 <= group < 18,
        0 <= imm < 32,
        0 <= n < 8,
        0 <= t < 8,
    ensures
        ({
            let e = ran(cpu, bus, 0x800 * group + 64 * imm + 8 * n + t);
            let base = cpu.regs.r[n];
            let c = past(cpu);
            let v = cpu.regs.r[t];
            e == (if group == 12 {
                c.stored(bus, wadd(base, (4 * imm) as u32), Width::Word, v)
            } else if group == 13 {
                c.loaded(bus, wadd(base, (4 * imm) as u32), Width::Word, false, t)
            } else if group == 14 {
                c.stored(bus, wadd(base, imm as u32), Width::Byte, v)
            } else if group == 15 {
                c.loaded(bus, wadd(base, imm as u32), Width::Byte, false, t)
            } else if group == 16 {
                c.stored(bus, wadd(base, (2 * imm) as u32), Width::Half, v)
            } else {
                c.loaded(bus, wadd(base, (2 * imm) as u32), Width::Half, false, t)
            })
        }),
{
    let op = (0x800 * group + 64 * imm + 8 * n + t) as u16;
    lemma_immediate_fields(group, imm, n, t);
    lemma_ran(cpu, bus, op as int);
    reveal(CortexM0Plus::thumb16);
    reveal(CortexM0Plus::ls_immediate);
}

/// The six loads and stores at a register plus an immediate, which counts in
/// units of the access.
#[verifier::rlimit(40)]
pub proof fn law_immediate_offset(cpu: CortexM0Plus, bus: BusState, imm: int, n: int, t: int)
    requires
        0 <= imm < 32,
        0 <= n < 8,
        0 <= t < 8,
    ensures
        ({
            let args = 64 * imm + 8 * n + t;
            let at = |scale: int| (cpu.regs.r[n] + scale * imm) % 0x1_0000_0000;
            let v = cpu.regs.r[t];
            &&& stores(cpu, bus, ran(cpu, bus, 0x6000 + args), at(4), Width::Word, v)
            &&& loads(cpu, bus, ran(cpu, bus, 0x6800 + args), at(4), Width::Word, t, bus.value_at(
                at(4) as u32,
                Width::Word,
            ) as int)
            &&& stores(cpu, bus, ran(cpu, bus, 0x7000 + args), at(1), Width::Byte, v)
            &&& loads(cpu, bus, ran(cpu, bus, 0x7800 + args), at(1), Width::Byte, t, bus.value_at(
                at(1) as u32,
                Width::Byte,
            ) as int)
            &&& stores(cpu, bus, ran(cpu, bus, 0x8000 + args), at(2), Width::Half, v)
            &&& loads(cpu, bus, ran(cpu, bus, 0x8800 + args), at(2), Width::Half, t, bus.value_at(
                at(2) as u32,
                Width::Half,
            ) as int)
        }),
{
    let base = cpu.regs.r[n];
    let v = cpu.regs.r[t];
    lemma_sum_of(base, (4 * imm) as u32);
    lemma_sum_of(base, (2 * imm) as u32);
    lemma_sum_of(base, imm as u32);
    lemma_immediate_access(cpu, bus, 12, imm, n, t);
    lemma_immediate_access(cpu, bus, 13, imm, n, t);
    lemma_immediate_access(cpu, bus, 14, imm, n, t);
    lemma_immediate_access(cpu, bus, 15, imm, n, t);
    lemma_immediate_access(cpu, bus, 16, imm, n, t);
    lemma_immediate_access(cpu, bus, 17, imm, n, t);
    lemma_stores(cpu, bus, wadd(base, (4 * imm) as u32), Width::Word, v);
    lemma_loads(cpu, bus, wadd(base, (4 * imm) as u32), Width::Word, t);
    lemma_stores(cpu, bus, wadd(base, imm as u32), Width::Byte, v);
    lemma_loads(cpu, bus, wadd(base, imm as u32), Width::Byte, t);
    lemma_stores(cpu, bus, wadd(base, (2 * imm) as u32), Width::Half, v);
    lemma_loads(cpu, bus, wadd(base, (2 * imm) as u32), Width::Half, t);
}

#[verifier::rlimit(40)]
proof fn lemma_relative(cpu: CortexM0Plus, bus: BusState, group: int, t: int, imm: int)
    requires
        group == 9 || 18 <= group < 22,
        0 <= t < 8,
        0 <= imm < 256,
    ensures
        ({
            let e = ran(cpu, bus, 0x800 * group + 0x100 * t + imm);
            let c = past(cpu);
            let pc = (wadd(cpu.regs.r[15], 4) / 4 * 4) as u32;
            let sp = cpu.regs.r[13];
            let k = (4 * imm) as u32;
            e == (if group == 9 {
                c.loaded(bus, wadd(pc, k), Width::Word, false, t)
            } else if group == 18 {
                c.stored(bus, wadd(sp, k), Width::Word, cpu.regs.r[t])
            } else if group == 19 {
                c.loaded(bus, wadd(sp, k), Width::Word, false, t)
            } else if group == 20 {
                c.with_regs(c.regs.with_reg(t, wadd(pc, k))).took(bus, 1)
            } else {
                c.with_regs(c.regs.with_reg(t, wadd(sp, k))).took(bus, 1)
            })
        }),
{
    let op = (0x800 * group + 0x100 * t + imm) as u16;
    assert(op / 0x800 == group && op / 0x100 % 8 == t && op % 0x100 == imm);
    lemma_ran(cpu, bus, op as int);
    reveal(CortexM0Plus::thumb16);
    reveal(CortexM0Plus::relative);
}

/// Words at the program counter, brought down to a word, or at the stack
/// pointer, plus an immediate in words; and the two sums as results.
#[verifier::rlimit(40)]
pub proof fn law_relative_offset(cpu: CortexM0Plus, bus: BusState, t: int, imm: int)
    requires
        0 <= t < 8,
        0 <= imm < 256,
    ensures
        ({
            let args = 0x100 * t + imm;
            let pc = (cpu.regs.r[15] + 4) % 0x1_0000_0000;
            let by_pc = (pc - pc % 4 + 4 * imm) % 0x1_0000_0000;
            let by_sp = (cpu.regs.r[13] + 4 * imm) % 0x1_0000_0000;
            let adr = ran(cpu, bus, 0xA000 + args);
            let add_sp = ran(cpu, bus, 0xA800 + args);
            &&& loads(cpu, bus, ran(cpu, bus, 0x4800 + args), by_pc, Width::Word, t, bus.value_at(
                by_pc as u32,
                Width::Word,
            ) as int)
            &&& stores(cpu, bus, ran(cpu, bus, 0x9000 + args), by_sp, Width::Word, cpu.regs.r[t])
            &&& loads(cpu, bus, ran(cpu, bus, 0x9800 + args), by_sp, Width::Word, t, bus.value_at(
                by_sp as u32,
                Width::Word,
            ) as int)
            &&& adr.cpu.regs.r[t] == by_pc && only_sets(cpu, bus, adr, t) && adr.cpu.regs.xpsr == cpu.regs.xpsr
            &&& add_sp.cpu.regs.r[t] == by_sp && only_sets(cpu, bus, add_sp, t) && add_sp.cpu.regs.xpsr
                == cpu.regs.xpsr
        }),
{
    let pc = (wadd(cpu.regs.r[15], 4) / 4 * 4) as u32;
    let sp = cpu.regs.r[13];
    let k = (4 * imm) as u32;
    lemma_sum_of(cpu.regs.r[15], 4);
    lemma_sum_of(pc, k);
    lemma_sum_of(sp, k);
    lemma_ran(cpu, bus, 0);
    lemma_relative(cpu, bus, 9, t, imm);
    lemma_relative(cpu, bus, 18, t, imm);
    lemma_relative(cpu, bus, 19, t, imm);
    lemma_relative(cpu, bus, 20, t, imm);
    lemma_relative(cpu, bus, 21, t, imm);
    lemma_loads(cpu, bus, wadd(pc, k), Width::Word, t);
    lemma_stores(cpu, bus, wadd(sp, k), Width::Word, cpu.regs.r[t]);
    lemma_loads(cpu, bus, wadd(sp, k), Width::Word, t);
}

/// The stack pointer moved up and down by words.
#[verifier::rlimit(40)]
pub proof fn law_stack_pointer_moves(cpu: CortexM0Plus, bus: BusState, imm: int)
    requires
        0 <= imm < 128,
    ensures
        ({
            let up = ran(cpu, bus, 0xB000 + imm);
            let down = ran(cpu, bus, 0xB080 + imm);
            &&& up.cpu.regs.r[13] == (cpu.regs.r[13] + 4 * imm) % 0x1_0000_0000
            &&& down.cpu.regs.r[13] == (cpu.regs.r[13] - 4 * imm) % 0x1_0000_0000
            &&& only_sets(cpu, bus, up, 13) && up.cpu.regs.xpsr == cpu.regs.xpsr
            &&& only_sets(cpu, bus, down, 13) && down.cpu.regs.xpsr == cpu.regs.xpsr
        }),
{
    lemma_stack_pointer(cpu, bus, 0xB000 + imm);
    lemma_stack_pointer(cpu, bus, 0xB080 + imm);
    lemma_sum_of(cpu.regs.r[13], (4 * imm) as u32);
    lemma_ran(cpu, bus, 0);
}

/// The miscellaneous group.
#[verifier::rlimit(40)]
pub proof fn lemma_misc(cpu: CortexM0Plus, bus: BusState, op: int)
    requires
        0xB000 <= op < 0xC000,
    ensures
        ran(cpu, bus, op) == past(cpu).misc(bus, op as u16),
{
    lemma_ran(cpu, bus, op);
    reveal(CortexM0Plus::thumb16);
}

#[verifier::rlimit(40)]
proof fn lemma_stack_pointer(cpu: CortexM0Plus, bus: BusState, op: int)
    requires
        0xB000 <= op < 0xB100,
    ensures
        ({
            let c = past(cpu);
            let k = (4 * (op % 128)) as u32;
            let v = if op < 0xB080 {
                wadd(cpu.regs.r[13], k)
            } else {
                wsub(cpu.regs.r[13], k)
            };
            ran(cpu, bus, op) == c.with_regs(c.regs.with_reg(13, v)).took(bus, 1)
        }),
{
    lemma_misc(cpu, bus, op);
    lemma_ran(cpu, bus, op);
    reveal(CortexM0Plus::misc);
}

/// The address that a branch by `distance` bytes goes to, counted from four
/// past the instruction.
pub open spec fn from_here(cpu: CortexM0Plus, distance: int) -> int {
    (cpu.regs.r[15] + 4 + distance) % 0x1_0000_0000
}

/// The condition that a code from 0 to 13 stands for, over N, Z, C and V.
pub open spec fn condition(code: int, f: (bool, bool, bool, bool)) -> bool {
    let (n, z, c, v) = f;
    if code == 0 {
        z
    } else if code == 1 {
        !z
    } else if code == 2 {
        c
    } else if code == 3 {
        !c
    } else if code == 4 {
        n
    } else if code == 5 {
        !n
    } else if code == 6 {
        v
    } else if code == 7 {
        !v
    } else if code == 8 {
        c && !z
    } else if code == 9 {
        !(c && !z)
    } else if code == 10 {
        n == v
    } else if code == 11 {
        n != v
    } else if code == 12 {
        !z && n == v
    } else {
        !(!z && n == v)
    }
}

/// A conditional branch goes by twice its signed byte where its condition
/// holds, in three cycles, and else does nothing, in one. The last two codes
/// are an undefined instruction and the supervisor call.
#[verifier::rlimit(40)]
pub proof fn law_conditional_branch(cpu: CortexM0Plus, bus: BusState, code: int, imm: int)
    requires
        0 <= code < 16,
        -128 <= imm < 128,
    ensures
        ({
            let e = ran(cpu, bus, 0xD000 + 0x100 * code + imm % 256);
            let holds = condition(code, flags(cpu.regs.xpsr));
            &&& code < 14 && holds ==> goes_to(cpu, bus, e, from_here(cpu, 2 * imm), 3) && e.cpu.regs.r[14]
                == cpu.regs.r[14]
            &&& code < 14 && !holds ==> e.bus == bus && e.cycles == 1 && moved_on(cpu, e.cpu)
            &&& code == 14 ==> faults(cpu, bus, e, Fault::Undefined)
            &&& code == 15 ==> faults(cpu, bus, e, Fault::Svc)
        }),
{
    lemma_conditional(cpu, bus, code, imm % 256);
    if code < 14 {
        lemma_holds(cpu.regs, code);
    }
    lemma_ran(cpu, bus, 0);
    let c = past(cpu);
    assert(c.branch_target(2 * imm) == from_here(cpu, 2 * imm));
    assert(c.regs.holds(code as u8) == cpu.regs.holds(code as u8));
}

#[verifier::rlimit(40)]
proof fn lemma_holds(r: Registers, code: int)
    requires
        0 <= code < 14,
    ensures
        r.holds(code as u8) == condition(code, flags(r.xpsr)),
{
}

#[verifier::rlimit(40)]
proof fn lemma_conditional(cpu: CortexM0Plus, bus: BusState, code: int, imm: int)
    requires
        0 <= code < 16,
        0 <= imm < 256,
    ensures
        ({
            let e = ran(cpu, bus, 0xD000 + 0x100 * code + imm);
            let c = past(cpu);
            let offset = if imm >= 0x80 {
                2 * (imm - 0x100)
            } else {
                2 * imm
            };
            e == (if code == 15 {
                c.with_fault(Fault::Svc).took(bus, 1)
            } else if code == 14 {
                c.with_fault(Fault::Undefined).took(bus, 1)
            } else if c.regs.holds(code as u8) {
                c.with_regs(c.regs.with_reg(15, c.branch_target(offset))).took(bus, 3)
            } else {
                c.took(bus, 1)
            })
        }),
{
    let op = (0xD000 + 0x100 * code + imm) as u16;
    assert(op / 0x100 == 0xD0 + code && op % 0x100 == imm);
    assert(op / 0x800 == 26 + code / 8);
    lemma_ran(cpu, bus, op as int);
    assert(ran(cpu, bus, op as int) == past(cpu).conditional(bus, op)) by {
        reveal(CortexM0Plus::thumb16);
    }
    reveal(CortexM0Plus::conditional);
}

/// The unconditional branch goes by twice its signed eleven bits.
#[verifier::rlimit(40)]
pub proof fn law_branch(cpu: CortexM0Plus, bus: BusState, imm: int)
    requires
        -1024 <= imm < 1024,
    ensures
        ({
            let e = ran(cpu, bus, 0xE000 + imm % 2048);
            goes_to(cpu, bus, e, from_here(cpu, 2 * imm), 3) && e.cpu.regs.r[14] == cpu.regs.r[14]
        }),
{
    lemma_branch(cpu, bus, imm % 2048);
    lemma_ran(cpu, bus, 0);
    let c = past(cpu);
    assert(c.branch_target(2 * imm) == from_here(cpu, 2 * imm));
}

#[verifier::rlimit(40)]
proof fn lemma_branch(cpu: CortexM0Plus, bus: BusState, imm: int)
    requires
        0 <= imm < 2048,
    ensures
        ({
            let c = past(cpu);
            let offset = if imm >= 0x400 {
                2 * (imm - 0x800)
            } else {
                2 * imm
            };
            ran(cpu, bus, 0xE000 + imm) == c.with_regs(
                c.regs.with_reg(15, c.branch_target(offset)),
            ).took(bus, 3)
        }),
{
    let op = (0xE000 + imm) as u16;
    assert(op / 0x800 == 28 && op % 0x800 == imm);
    lemma_ran(cpu, bus, op as int);
    assert(ran(cpu, bus, op as int) == past(cpu).branch(bus, op)) by {
        reveal(CortexM0Plus::thumb16);
    }
    reveal(CortexM0Plus::branch);
}

/// One 32-bit instruction executed at the program counter.
pub open spec fn ran_wide(cpu: CortexM0Plus, bus: BusState, hw0: int, hw1: int) -> Effect {
    cpu.executed(bus, DecodedOp { tag: cpu.regs.r[15], hw0: hw0 as u16, hw1: hw1 as u16, wide: true })
}

/// The core with its program counter past a 32-bit instruction.
pub open spec fn past_wide(cpu: CortexM0Plus) -> CortexM0Plus {
    CortexM0Plus {
        current_instr_addr: cpu.regs.r[15],
        regs: cpu.regs.with_reg(15, wadd(cpu.regs.r[15], 4)),
        ..cpu
    }
}

#[verifier::rlimit(40)]
pub proof fn lemma_ran_wide(cpu: CortexM0Plus, bus: BusState, hw0: int, hw1: int)
    ensures
        ran_wide(cpu, bus, hw0, hw1) == past_wide(cpu).thumb32(bus, hw0 as u16, hw1 as u16),
{
    reveal(CortexM0Plus::executed);
}

/// Branch with link: a sign, two bits that are kept inverted against it, ten
/// and eleven more make up a signed distance of 24 bits in halfwords; the link
/// register names the instruction after, with its lowest bit set.
#[verifier::rlimit(40)]
pub proof fn law_branch_with_link(cpu: CortexM0Plus, bus: BusState, halves: int)
    requires
        -0x80_0000 <= halves < 0x80_0000,
        cpu.regs.r[15] % 2 == 0,
    ensures
        ({
            let u = halves % 0x100_0000;
            let s = u / 0x80_0000;
            let i1 = u / 0x40_0000 % 2;
            let i2 = u / 0x20_0000 % 2;
            let j1 = if i1 == s {
                1int
            } else {
                0
            };
            let j2 = if i2 == s {
                1int
            } else {
                0
            };
            let hw0 = 0xF000 + 0x400 * s + u / 0x800 % 0x400;
            let hw1 = 0xD000 + 0x2000 * j1 + 0x800 * j2 + u % 0x800;
            let e = ran_wide(cpu, bus, hw0, hw1);
            &&& goes_to(cpu, bus, e, from_here(cpu, 2 * halves), 4)
            &&& e.cpu.regs.r[14] == (cpu.regs.r[15] + 4) % 0x1_0000_0000 + 1
        }),
{
    let u = halves % 0x100_0000;
    let s = u / 0x80_0000;
    let i1 = u / 0x40_0000 % 2;
    let i2 = u / 0x20_0000 % 2;
    let j1 = if i1 == s {
        1int
    } else {
        0
    };
    let j2 = if i2 == s {
        1int
    } else {
        0
    };
    let imm10 = u / 0x800 % 0x400;
    let imm11 = u % 0x800;
    let hw0 = 0xF000 + 0x400 * s + imm10;
    let hw1 = 0xD000 + 0x2000 * j1 + 0x800 * j2 + imm11;
    lemma_ran_wide(cpu, bus, hw0, hw1);
    lemma_link_digits(s, i1, i2, imm10, imm11, halves);
    lemma_link_fields(s, imm10, j1, j2, imm11);
    lemma_sum_of(cpu.regs.r[15], 4);
    assert(ran_wide(cpu, bus, hw0, hw1) == past_wide(cpu).branch_link(bus, hw0 as u16, hw1 as u16)) by {
        reveal(CortexM0Plus::thumb32);
    }
    reveal(CortexM0Plus::branch_link);
    crate::cpu::laws::lemma_link_bit(wadd(cpu.regs.r[15], 4));
    lemma_link_offset(s, i1, i2, imm10, imm11, hw0, hw1);
}

#[verifier::rlimit(40)]
proof fn lemma_link_digits(s: int, i1: int, i2: int, imm10: int, imm11: int, halves: int)
    requires
        -0x80_0000 <= halves < 0x80_0000,
        s == halves % 0x100_0000 / 0x80_0000,
        i1 == halves % 0x100_0000 / 0x40_0000 % 2,
        i2 == halves % 0x100_0000 / 0x20_0000 % 2,
        imm10 == halves % 0x100_0000 / 0x800 % 0x400,
        imm11 == halves % 0x100_0000 % 0x800,
    ensures
        0 <= s < 2,
        0 <= i1 < 2,
        0 <= i2 < 2,
        0 <= imm10 < 0x400,
        0 <= imm11 < 0x800,
        halves == i1 * 0x40_0000 + i2 * 0x20_0000 + imm10 * 0x800 + imm11 - s * 0x80_0000,
{
}

#[verifier::rlimit(40)]
proof fn lemma_link_fields(s: int, imm10: int, j1: int, j2: int, imm11: int)
    requires
        0 <= s < 2,
        0 <= imm10 < 0x400,
        0 <= j1 < 2,
        0 <= j2 < 2,
        0 <= imm11 < 0x800,
    ensures
        ({
            let hw0 = (0xF000 + 0x400 * s + imm10) as u16;
            let hw1 = (0xD000 + 0x2000 * j1 + 0x800 * j2 + imm11) as u16;
            &&& hw0 / 0x400 % 2 == s && hw0 % 0x400 == imm10
            &&& hw1 / 0x2000 % 2 == j1 && hw1 / 0x800 % 2 == j2 && hw1 % 0x800 == imm11
            &&& hw1 / 0x4000 == 3 && hw1 / 0x1000 % 2 == 1
        }),
{
}

#[verifier::rlimit(40)]
proof fn lemma_link_offset(s: int, i1: int, i2: int, imm10: int, imm11: int, hw0: int, hw1: int)
    requires
        0 <= s < 2,
        0 <= i1 < 2,
        0 <= i2 < 2,
        0 <= imm10 < 0x400,
        0 <= imm11 < 0x800,
        hw0 == 0xF000 + 0x400 * s + imm10,
        hw1 == 0xD000 + 0x2000 * (if i1 == s {
            1int
        } else {
            0
        }) + 0x800 * (if i2 == s {
            1int
        } else {
            0
        }) + imm11,
    ensures
        crate::cpu::thumb32::link_offset(hw0 as u16, hw1 as u16) == 2 * (i1 * 0x40_0000 + i2 * 0x20_0000 + imm10
            * 0x800 + imm11 - s * 0x80_0000),
{
    lemma_link_fields(
        s,
        imm10,
        if i1 == s {
            1
        } else {
            0
        },
        if i2 == s {
            1
        } else {
            0
        },
        imm11,
    );
}

/// The hints. `wfe` takes a latched event or parks the core, `sev` latches one
/// for both, `wfi` halts the core unless an enabled interrupt is pending; the
/// other two do nothing.
#[verifier::rlimit(40)]
pub proof fn law_hints(cpu: CortexM0Plus, bus: BusState)
    requires
        cpu.core_id < 2,
    ensures
        ({
            let n = cpu.core_id as int;
            let nop = ran(cpu, bus, 0xBF00);
            let yield_ = ran(cpu, bus, 0xBF10);
            let wfe = ran(cpu, bus, 0xBF20);
            let wfi = ran(cpu, bus, 0xBF30);
            let sev = ran(cpu, bus, 0xBF40);
            &&& nop.bus == bus && nop.cycles == 1 && moved_on(cpu, nop.cpu)
            &&& yield_.bus == bus && yield_.cycles == 1 && moved_on(cpu, yield_.cpu)
            &&& wfe.cycles == 1 && moved_on(cpu, wfe.cpu)
            &&& bus.event_flag[n] ==> wfe.bus == (BusState { event_flag: wfe.bus.event_flag, ..bus })
                && !wfe.bus.event_flag[n] && wfe.bus.event_flag[1 - n] == bus.event_flag[1 - n]
            &&& !bus.event_flag[n] ==> wfe.bus == (BusState { wfe_waiting: wfe.bus.wfe_waiting, ..bus })
                && wfe.bus.wfe_waiting[n] && wfe.bus.wfe_waiting[1 - n] == bus.wfe_waiting[1 - n]
            &&& wfi.cycles == 1 && wfi.bus == bus && moved_on(cpu, CortexM0Plus { halted: cpu.halted, ..wfi.cpu })
            &&& wfi.cpu.halted == (cpu.halted || bus.nvics[n].pending & bus.nvics[n].enabled == 0)
            &&& sev.cycles == 1 && moved_on(cpu, sev.cpu)
            &&& sev.bus == (BusState { event_flag: sev.bus.event_flag, ..bus }) && sev.bus.event_flag[0]
                && sev.bus.event_flag[1]
        }),
{
    lemma_hint(cpu, bus, 0xBF00);
    lemma_hint(cpu, bus, 0xBF10);
    lemma_hint(cpu, bus, 0xBF20);
    lemma_hint(cpu, bus, 0xBF30);
    lemma_hint(cpu, bus, 0xBF40);
    lemma_ran(cpu, bus, 0);
    reveal(CortexM0Plus::hint);
}

#[verifier::rlimit(40)]
proof fn lemma_hint(cpu: CortexM0Plus, bus: BusState, op: int)
    requires
        0xBF00 <= op < 0xC000,
    ensures
        ran(cpu, bus, op) == past(cpu).hint(bus, op as u16),
{
    lemma_misc(cpu, bus, op);
    reveal(CortexM0Plus::misc);
}

/// `cpsid` and `cpsie` set and clear the interrupt mask.
#[verifier::rlimit(40)]
pub proof fn law_masking(cpu: CortexM0Plus, bus: BusState)
    ensures
        ({
            let off = ran(cpu, bus, 0xB672);
            let on = ran(cpu, bus, 0xB662);
            &&& off.cpu.regs.primask == 1 && off.bus == bus && off.cycles == 1
            &&& on.cpu.regs.primask == 0 && on.bus == bus && on.cycles == 1
            &&& moved_on(cpu, CortexM0Plus {
                regs: Registers { primask: cpu.regs.primask, ..off.cpu.regs },
                ..off.cpu
            })
            &&& moved_on(cpu, CortexM0Plus {
                regs: Registers { primask: cpu.regs.primask, ..on.cpu.regs },
                ..on.cpu
            })
        }),
{
    lemma_mask_change(cpu, bus, 0xB672);
    lemma_mask_change(cpu, bus, 0xB662);
    lemma_ran(cpu, bus, 0);
}

#[verifier::rlimit(40)]
proof fn lemma_mask_change(cpu: CortexM0Plus, bus: BusState, op: int)
    requires
        op == 0xB672 || op == 0xB662,
    ensures
        ({
            let c = past(cpu);
            ran(cpu, bus, op) == c.with_regs(
                Registers { primask: (op / 16 % 2) as u32, ..c.regs },
            ).took(bus, 1)
        }),
{
    lemma_misc(cpu, bus, op);
    reveal(CortexM0Plus::misc);
}

/// A breakpoint, and the encodings of the miscellaneous group with no
/// meaning, are refused.
#[verifier::rlimit(40)]
pub proof fn law_traps(cpu: CortexM0Plus, bus: BusState, imm: int)
    requires
        0 <= imm < 256,
    ensures
        faults(cpu, bus, ran(cpu, bus, 0xBE00 + imm), Fault::Breakpoint),
        faults(cpu, bus, ran(cpu, bus, 0xB100 + imm), Fault::Undefined),
        faults(cpu, bus, ran(cpu, bus, 0xB900 + imm), Fault::Undefined),
        imm < 64 ==> faults(cpu, bus, ran(cpu, bus, 0xBA80 + imm), Fault::Undefined),
{
    lemma_trap(cpu, bus, 0xBE00 + imm);
    lemma_trap(cpu, bus, 0xB100 + imm);
    lemma_trap(cpu, bus, 0xB900 + imm);
    if imm < 64 {
        lemma_trap(cpu, bus, 0xBA80 + imm);
    }
}

#[verifier::rlimit(40)]
proof fn lemma_trap(cpu: CortexM0Plus, bus: BusState, op: int)
    requires
        op / 0x100 == 0xBE || op / 0x100 == 0xB1 || op / 0x100 == 0xB9 || 0xBA80 <= op < 0xBAC0,
    ensures
        faults(
            cpu,
            bus,
            ran(cpu, bus, op),
            if op / 0x100 == 0xBE {
                Fault::Breakpoint
            } else {
                Fault::Undefined
            },
        ),
{
    lemma_misc(cpu, bus, op);
    lemma_ran(cpu, bus, op);
    reveal(CortexM0Plus::misc);
}

/// Encodings from 0xE800 up that are not the first half of a wide instruction
/// are undefined.
#[verifier::rlimit(40)]
pub proof fn law_undefined_halfwords(cpu: CortexM0Plus, bus: BusState, op: int)
    requires
        0xE800 <= op < 0x1_0000,
    ensures
        faults(cpu, bus, ran(cpu, bus, op), Fault::Undefined),
{
    lemma_ran(cpu, bus, op);
    reveal(CortexM0Plus::thumb16);
}

} // verus!
