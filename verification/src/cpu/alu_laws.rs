//! What the register-to-register instructions compute, bit by bit and as
//! numbers, from the encoding to the flags.
use vstd::prelude::*;

use crate::bits::{bit, lemma_bit_ops, signed, wadd};
use crate::bus::model::BusState;
use crate::cpu::alu::{asr_c, complement, lsl, lsr, ror, sum, Shifted, Sum};
use crate::cpu::decode::DecodedOp;
use crate::cpu::registers::{lemma_with_flags, Registers};
use crate::cpu::{CortexM0Plus, Effect};

verus! {

/// One 16-bit instruction executed at the program counter.
pub open spec fn ran(cpu: CortexM0Plus, bus: BusState, op: int) -> Effect {
    cpu.executed(bus, DecodedOp { tag: cpu.regs.r[15], hw0: op as u16, hw1: 0, wide: false })
}

/// The instruction took one cycle and moved on to the next halfword; it
/// touched nothing but register `d` and the flags.
pub open spec fn only_sets(cpu: CortexM0Plus, bus: BusState, e: Effect, d: int) -> bool {
    &&& e.cycles == 1
    &&& e.bus == bus
    &&& e.cpu == (CortexM0Plus { regs: e.cpu.regs, current_instr_addr: cpu.regs.r[15], ..cpu })
    &&& e.cpu.regs == (Registers { r: e.cpu.regs.r, xpsr: e.cpu.regs.xpsr, ..cpu.regs })
    &&& e.cpu.regs.xpsr & 0x0FFF_FFFF == cpu.regs.xpsr & 0x0FFF_FFFF
    &&& e.cpu.regs.r[15] == (cpu.regs.r[15] + 2) % 0x1_0000_0000
    &&& forall|k: int| 0 <= k < 15 && k != d ==> #[trigger] e.cpu.regs.r[k] == cpu.regs.r[k]
}

/// The four flags of a status word, from the top.
pub open spec fn flags(xpsr: u32) -> (bool, bool, bool, bool) {
    (
        xpsr & 0x8000_0000 != 0,
        xpsr & 0x4000_0000 != 0,
        xpsr & 0x2000_0000 != 0,
        xpsr & 0x1000_0000 != 0,
    )
}

/// N and Z say of the result `v` what they are for; C and V are as before.
pub open spec fn flags_of_logic(before: u32, after: u32, v: u32) -> bool {
    flags(after) == (signed(v) < 0, v == 0, flags(before).2, flags(before).3)
}

/// N and Z say of the result `v` what they are for, C is `c`, V as before.
pub open spec fn flags_of_shift(before: u32, after: u32, v: u32, c: bool) -> bool {
    flags(after) == (signed(v) < 0, v == 0, c, flags(before).3)
}

/// The flags of an addition whose exact unsigned sum is `wide` and whose exact
/// signed sum is `exact`, and its result `v`.
pub open spec fn adds_up(xpsr: u32, v: u32, wide: int, exact: int) -> bool {
    &&& v == wide % 0x1_0000_0000
    &&& flags(xpsr) == (signed(v) < 0, v == 0, wide >= 0x1_0000_0000, signed(v) != exact)
}

/// The flags of `a - b`, and its result `v`: the carry is the absence of a
/// borrow.
pub open spec fn takes_away(xpsr: u32, v: u32, a: u32, b: u32) -> bool {
    &&& v == (a - b) % 0x1_0000_0000
    &&& flags(xpsr) == (signed(v) < 0, v == 0, a >= b, signed(v) != signed(a) - signed(b))
}

/// Writing flags sets them to what was asked.
#[verifier::rlimit(40)]
proof fn lemma_flags(x: u32, n: bool, z: bool, c: bool, v: bool)
    ensures
        flags(crate::cpu::registers::with_flags(x, n, z, c, v)) == (n, z, c, v),
        crate::cpu::registers::with_flags(x, n, z, c, v) & 0x0FFF_FFFF == x & 0x0FFF_FFFF,
{
    lemma_with_flags(x, n, z, c, v);
}

/// The core with its program counter on the next halfword.
pub open spec fn past(cpu: CortexM0Plus) -> CortexM0Plus {
    CortexM0Plus {
        current_instr_addr: cpu.regs.r[15],
        regs: cpu.regs.with_reg(15, wadd(cpu.regs.r[15], 2)),
        ..cpu
    }
}

/// A logical result in a register.
#[verifier::rlimit(40)]
proof fn lemma_logic(cpu: CortexM0Plus, bus: BusState, d: int, v: u32)
    requires
        0 <= d < 15,
    ensures
        ({
            let e = past(cpu).with_regs(past(cpu).regs.with_logic(d, v)).took(bus, 1);
            &&& only_sets(cpu, bus, e, d)
            &&& e.cpu.regs.r[d] == v
            &&& flags_of_logic(cpu.regs.xpsr, e.cpu.regs.xpsr, v)
        }),
        ({
            let e = past(cpu).with_regs(past(cpu).regs.with_nz(v)).took(bus, 1);
            &&& only_sets(cpu, bus, e, -1)
            &&& flags_of_logic(cpu.regs.xpsr, e.cpu.regs.xpsr, v)
        }),
{
    reveal(wadd);
    lemma_flags(cpu.regs.xpsr, v >= 0x8000_0000, v == 0, cpu.regs.c(), cpu.regs.v());
}

/// A shifted word in a register.
#[verifier::rlimit(40)]
proof fn lemma_shift(cpu: CortexM0Plus, bus: BusState, d: int, s: Shifted)
    requires
        0 <= d < 15,
    ensures
        ({
            let e = past(cpu).with_regs(past(cpu).regs.with_shift(d, s)).took(bus, 1);
            &&& only_sets(cpu, bus, e, d)
            &&& e.cpu.regs.r[d] == s.value
            &&& flags_of_shift(cpu.regs.xpsr, e.cpu.regs.xpsr, s.value, s.carry)
        }),
{
    reveal(wadd);
    lemma_flags(cpu.regs.xpsr, s.value >= 0x8000_0000, s.value == 0, s.carry, cpu.regs.v());
}

/// A sum in a register, or its flags alone.
#[verifier::rlimit(40)]
pub proof fn lemma_sum(cpu: CortexM0Plus, bus: BusState, d: int, s: Sum)
    requires
        0 <= d < 15,
    ensures
        ({
            let e = past(cpu).with_regs(past(cpu).regs.with_sum(d, s)).took(bus, 1);
            &&& only_sets(cpu, bus, e, d)
            &&& e.cpu.regs.r[d] == s.result
            &&& flags(e.cpu.regs.xpsr) == (signed(s.result) < 0, s.result == 0, s.carry, s.overflow)
        }),
        ({
            let e = past(cpu).with_regs(past(cpu).regs.with_sum_flags(s)).took(bus, 1);
            &&& only_sets(cpu, bus, e, -1)
            &&& flags(e.cpu.regs.xpsr) == (signed(s.result) < 0, s.result == 0, s.carry, s.overflow)
        }),
{
    reveal(wadd);
    lemma_flags(cpu.regs.xpsr, s.result >= 0x8000_0000, s.result == 0, s.carry, s.overflow);
}

/// The fields of a two-register instruction.
#[verifier::rlimit(40)]
proof fn lemma_fields(kind: int, d: int, m: int)
    requires
        0 <= kind < 16,
        0 <= d < 8,
        0 <= m < 8,
    ensures
        ({
            let op = (0x4000 + 64 * kind + 8 * m + d) as u16;
            op % 8 == d && op / 8 % 8 == m && op / 64 % 16 == kind && op / 0x800 == 8 && op / 0x400 % 2 == 0
        }),
{
}

/// Where the groups of instructions are in the encoding.
#[verifier::rlimit(40)]
proof fn lemma_groups(cpu: CortexM0Plus, bus: BusState, op: u16)
    ensures
        op / 0x800 == 8 && op / 0x400 % 2 == 0 ==> ran(cpu, bus, op as int) == past(cpu).with_regs(
            past(cpu).regs.after_data_processing(op),
        ).took(bus, 1),
        op / 0x800 < 3 ==> ran(cpu, bus, op as int) == past(cpu).with_regs(
            past(cpu).regs.after_shift_imm(op),
        ).took(bus, 1),
        op / 0x800 == 3 ==> ran(cpu, bus, op as int) == past(cpu).with_regs(
            past(cpu).regs.after_add_sub(op),
        ).took(bus, 1),
        4 <= op / 0x800 < 8 ==> ran(cpu, bus, op as int) == past(cpu).with_regs(
            past(cpu).regs.after_imm8(op),
        ).took(bus, 1),
{
    reveal(CortexM0Plus::executed);
    let e = ran(cpu, bus, op as int);
    assert(e == past(cpu).thumb16(bus, op));
    lemma_thumb16_groups(past(cpu), bus, op);
}

#[verifier::rlimit(40)]
proof fn lemma_thumb16_groups(cpu: CortexM0Plus, bus: BusState, op: u16)
    ensures
        op / 0x800 == 8 && op / 0x400 % 2 == 0 ==> cpu.thumb16(bus, op) == cpu.with_regs(
            cpu.regs.after_data_processing(op),
        ).took(bus, 1),
        op / 0x800 < 3 ==> cpu.thumb16(bus, op) == cpu.with_regs(cpu.regs.after_shift_imm(op)).took(bus, 1),
        op / 0x800 == 3 ==> cpu.thumb16(bus, op) == cpu.with_regs(cpu.regs.after_add_sub(op)).took(bus, 1),
        4 <= op / 0x800 < 8 ==> cpu.thumb16(bus, op) == cpu.with_regs(cpu.regs.after_imm8(op)).took(bus, 1),
{
    reveal(CortexM0Plus::thumb16);
}

/// Where the two-register instructions are in the encoding.
#[verifier::rlimit(40)]
proof fn lemma_two_registers(cpu: CortexM0Plus, bus: BusState, kind: int, d: int, m: int)
    requires
        0 <= kind < 16,
        0 <= d < 8,
        0 <= m < 8,
    ensures
        ({
            let op = (0x4000 + 64 * kind + 8 * m + d) as u16;
            &&& ran(cpu, bus, 0x4000 + 64 * kind + 8 * m + d) == past(cpu).with_regs(
                past(cpu).regs.after_data_processing(op),
            ).took(bus, 1)
            &&& op % 8 == d && op / 8 % 8 == m && op / 64 % 16 == kind
        }),
        past(cpu).regs.r[d] == cpu.regs.r[d],
        past(cpu).regs.r[m] == cpu.regs.r[m],
        past(cpu).regs.xpsr == cpu.regs.xpsr,
{
    lemma_fields(kind, d, m);
    lemma_groups(cpu, bus, (0x4000 + 64 * kind + 8 * m + d) as u16);
}

/// `ands`: a bit of the result is set where it is set in both operands.
#[verifier::rlimit(40)]
pub proof fn law_ands(cpu: CortexM0Plus, bus: BusState, d: int, m: int, i: int)
    requires
        0 <= d < 8,
        0 <= m < 8,
        0 <= i < 32,
    ensures
        ({
            let e = ran(cpu, bus, 0x4000 + 8 * m + d);
            &&& bit(e.cpu.regs.r[d], i) == (bit(cpu.regs.r[d], i) && bit(cpu.regs.r[m], i))
            &&& flags_of_logic(cpu.regs.xpsr, e.cpu.regs.xpsr, e.cpu.regs.r[d])
            &&& only_sets(cpu, bus, e, d)
        }),
{
    lemma_two_registers(cpu, bus, 0, d, m);
    lemma_bit_ops(cpu.regs.r[d], cpu.regs.r[m], i as u32, 0);
    lemma_logic(cpu, bus, d, cpu.regs.r[d] & cpu.regs.r[m]);
}

/// `tst` sets the flags that `ands` would and keeps the register.
#[verifier::rlimit(40)]
pub proof fn law_tst(cpu: CortexM0Plus, bus: BusState, d: int, m: int)
    requires
        0 <= d < 8,
        0 <= m < 8,
    ensures
        ({
            let e = ran(cpu, bus, 0x4200 + 8 * m + d);
            &&& e.cpu.regs.xpsr == ran(cpu, bus, 0x4000 + 8 * m + d).cpu.regs.xpsr
            &&& only_sets(cpu, bus, e, -1)
        }),
{
    lemma_two_registers(cpu, bus, 0, d, m);
    lemma_two_registers(cpu, bus, 8, d, m);
    lemma_logic(cpu, bus, d, cpu.regs.r[d] & cpu.regs.r[m]);
}

/// `eors`: a bit of the result is set where the operands differ.
#[verifier::rlimit(40)]
pub proof fn law_eors(cpu: CortexM0Plus, bus: BusState, d: int, m: int, i: int)
    requires
        0 <= d < 8,
        0 <= m < 8,
        0 <= i < 32,
    ensures
        ({
            let e = ran(cpu, bus, 0x4040 + 8 * m + d);
            &&& bit(e.cpu.regs.r[d], i) == (bit(cpu.regs.r[d], i) != bit(cpu.regs.r[m], i))
            &&& flags_of_logic(cpu.regs.xpsr, e.cpu.regs.xpsr, e.cpu.regs.r[d])
            &&& only_sets(cpu, bus, e, d)
        }),
{
    lemma_two_registers(cpu, bus, 1, d, m);
    lemma_bit_ops(cpu.regs.r[d], cpu.regs.r[m], i as u32, 0);
    lemma_logic(cpu, bus, d, cpu.regs.r[d] ^ cpu.regs.r[m]);
}

/// `orrs`: a bit of the result is set where it is set in either operand.
#[verifier::rlimit(40)]
pub proof fn law_orrs(cpu: CortexM0Plus, bus: BusState, d: int, m: int, i: int)
    requires
        0 <= d < 8,
        0 <= m < 8,
        0 <= i < 32,
    ensures
        ({
            let e = ran(cpu, bus, 0x4300 + 8 * m + d);
            &&& bit(e.cpu.regs.r[d], i) == (bit(cpu.regs.r[d], i) || bit(cpu.regs.r[m], i))
            &&& flags_of_logic(cpu.regs.xpsr, e.cpu.regs.xpsr, e.cpu.regs.r[d])
            &&& only_sets(cpu, bus, e, d)
        }),
{
    lemma_two_registers(cpu, bus, 12, d, m);
    lemma_bit_ops(cpu.regs.r[d], cpu.regs.r[m], i as u32, 0);
    lemma_logic(cpu, bus, d, cpu.regs.r[d] | cpu.regs.r[m]);
}

/// `bics`: a bit of the result is set where the first operand alone has it.
#[verifier::rlimit(40)]
pub proof fn law_bics(cpu: CortexM0Plus, bus: BusState, d: int, m: int, i: int)
    requires
        0 <= d < 8,
        0 <= m < 8,
        0 <= i < 32,
    ensures
        ({
            let e = ran(cpu, bus, 0x4380 + 8 * m + d);
            &&& bit(e.cpu.regs.r[d], i) == (bit(cpu.regs.r[d], i) && !bit(cpu.regs.r[m], i))
            &&& flags_of_logic(cpu.regs.xpsr, e.cpu.regs.xpsr, e.cpu.regs.r[d])
            &&& only_sets(cpu, bus, e, d)
        }),
{
    lemma_two_registers(cpu, bus, 14, d, m);
    lemma_bit_ops(cpu.regs.r[d], cpu.regs.r[m], i as u32, 0);
    lemma_logic(cpu, bus, d, cpu.regs.r[d] & !cpu.regs.r[m]);
}

/// `mvns`: a bit of the result is set where the operand's is not.
#[verifier::rlimit(40)]
pub proof fn law_mvns(cpu: CortexM0Plus, bus: BusState, d: int, m: int, i: int)
    requires
        0 <= d < 8,
        0 <= m < 8,
        0 <= i < 32,
    ensures
        ({
            let e = ran(cpu, bus, 0x43C0 + 8 * m + d);
            &&& bit(e.cpu.regs.r[d], i) == !bit(cpu.regs.r[m], i)
            &&& flags_of_logic(cpu.regs.xpsr, e.cpu.regs.xpsr, e.cpu.regs.r[d])
            &&& only_sets(cpu, bus, e, d)
        }),
{
    lemma_two_registers(cpu, bus, 15, d, m);
    lemma_bit_ops(cpu.regs.r[m], 0, i as u32, 0);
    lemma_logic(cpu, bus, d, !cpu.regs.r[m]);
}

/// `muls`: the low word of the product.
#[verifier::rlimit(40)]
pub proof fn law_muls(cpu: CortexM0Plus, bus: BusState, d: int, m: int)
    requires
        0 <= d < 8,
        0 <= m < 8,
    ensures
        ({
            let e = ran(cpu, bus, 0x4340 + 8 * m + d);
            &&& e.cpu.regs.r[d] == (cpu.regs.r[d] * cpu.regs.r[m]) % 0x1_0000_0000
            &&& flags_of_logic(cpu.regs.xpsr, e.cpu.regs.xpsr, e.cpu.regs.r[d])
            &&& only_sets(cpu, bus, e, d)
        }),
{
    lemma_two_registers(cpu, bus, 13, d, m);
    lemma_logic(cpu, bus, d, ((cpu.regs.r[d] * cpu.regs.r[m]) % 0x1_0000_0000) as u32);
}

/// What an addition with carry means: its result and flags.
#[verifier::rlimit(40)]
pub proof fn lemma_adds_up(a: u32, b: u32, c: bool)
    ensures
        ({
            let k = if c {
                1int
            } else {
                0int
            };
            let s = sum(a, b, c);
            &&& s.result == (a + b + k) % 0x1_0000_0000
            &&& s.carry == (a + b + k >= 0x1_0000_0000)
            &&& s.overflow == (signed(s.result) != signed(a) + signed(b) + k)
        }),
        ({
            let k = if c {
                1int
            } else {
                0int
            };
            let s = sum(a, complement(b), c);
            &&& s.result == (a - b - (1 - k)) % 0x1_0000_0000
            &&& s.carry == (a - b - (1 - k) >= 0)
            &&& s.overflow == (signed(s.result) != signed(a) - signed(b) - (1 - k))
        }),
{
}

/// `adcs` and `sbcs` take the carry flag in; `rsbs` takes the operand from
/// zero.
#[verifier::rlimit(40)]
pub proof fn law_carry_arithmetic(cpu: CortexM0Plus, bus: BusState, d: int, m: int)
    requires
        0 <= d < 8,
        0 <= m < 8,
    ensures
        ({
            let a = cpu.regs.r[d];
            let b = cpu.regs.r[m];
            let k = if cpu.regs.xpsr & 0x2000_0000 != 0 {
                1int
            } else {
                0int
            };
            let adc = ran(cpu, bus, 0x4140 + 8 * m + d);
            let sbc = ran(cpu, bus, 0x4180 + 8 * m + d);
            let rsb = ran(cpu, bus, 0x4240 + 8 * m + d);
            let x = adc.cpu.regs.r[d];
            let y = sbc.cpu.regs.r[d];
            &&& adds_up(adc.cpu.regs.xpsr, x, a + b + k, signed(a) + signed(b) + k)
            &&& only_sets(cpu, bus, adc, d)
            &&& y == (a - b - (1 - k)) % 0x1_0000_0000
            &&& flags(sbc.cpu.regs.xpsr) == (
                signed(y) < 0,
                y == 0,
                a >= b + (1 - k),
                signed(y) != signed(a) - signed(b) - (1 - k),
            )
            &&& only_sets(cpu, bus, sbc, d)
            &&& takes_away(rsb.cpu.regs.xpsr, rsb.cpu.regs.r[d], 0, b)
            &&& only_sets(cpu, bus, rsb, d)
        }),
{
    let a = cpu.regs.r[d];
    let b = cpu.regs.r[m];
    let c = cpu.regs.c();
    lemma_two_registers(cpu, bus, 5, d, m);
    lemma_two_registers(cpu, bus, 6, d, m);
    lemma_two_registers(cpu, bus, 9, d, m);
    lemma_adds_up(a, b, c);
    lemma_adds_up(0, b, true);
    lemma_sum(cpu, bus, d, sum(a, b, c));
    lemma_sum(cpu, bus, d, sum(a, complement(b), c));
    lemma_sum(cpu, bus, d, sum(0, complement(b), true));
}

/// `cmp` and `cmn` set the flags of a difference and of a sum, and keep both
/// registers.
#[verifier::rlimit(40)]
pub proof fn law_compare_registers(cpu: CortexM0Plus, bus: BusState, d: int, m: int)
    requires
        0 <= d < 8,
        0 <= m < 8,
    ensures
        ({
            let a = cpu.regs.r[d];
            let b = cpu.regs.r[m];
            let difference = ran(cpu, bus, 0x4280 + 8 * m + d);
            let cmn = ran(cpu, bus, 0x42C0 + 8 * m + d);
            &&& exists|v: u32| #[trigger] takes_away(difference.cpu.regs.xpsr, v, a, b)
            &&& only_sets(cpu, bus, difference, -1)
            &&& exists|v: u32| #[trigger] adds_up(cmn.cpu.regs.xpsr, v, a + b, signed(a) + signed(b))
            &&& only_sets(cpu, bus, cmn, -1)
        }),
{
    let a = cpu.regs.r[d];
    let b = cpu.regs.r[m];
    lemma_two_registers(cpu, bus, 10, d, m);
    lemma_two_registers(cpu, bus, 11, d, m);
    lemma_adds_up(a, b, true);
    lemma_adds_up(a, b, false);
    lemma_sum(cpu, bus, d, sum(a, complement(b), true));
    lemma_sum(cpu, bus, d, sum(a, b, false));
    assert(takes_away(
        ran(cpu, bus, 0x4280 + 8 * m + d).cpu.regs.xpsr,
        sum(a, complement(b), true).result,
        a,
        b,
    ));
    assert(adds_up(
        ran(cpu, bus, 0x42C0 + 8 * m + d).cpu.regs.xpsr,
        sum(a, b, false).result,
        a + b,
        signed(a) + signed(b),
    ));
}

/// `v` and `c` are `x` shifted left by `n` and the bit that fell out last, as
/// far as bit `i` goes; a shift by zero keeps the carry `kept`.
pub open spec fn is_left_shift(x: u32, n: int, kept: bool, v: u32, c: bool, i: int) -> bool {
    &&& bit(v, i) == (i >= n && bit(x, i - n))
    &&& c == (if n == 0 {
        kept
    } else {
        n <= 32 && bit(x, 32 - n)
    })
}

/// The same to the right, zeros moving in.
pub open spec fn is_right_shift(x: u32, n: int, kept: bool, v: u32, c: bool, i: int) -> bool {
    &&& bit(v, i) == (i + n < 32 && bit(x, i + n))
    &&& c == (if n == 0 {
        kept
    } else {
        n <= 32 && bit(x, n - 1)
    })
}

/// The same to the right, copies of the sign moving in.
pub open spec fn is_signed_shift(x: u32, n: int, kept: bool, v: u32, c: bool, i: int) -> bool {
    &&& bit(v, i) == bit(
        x,
        if i + n < 31 {
            i + n
        } else {
            31
        },
    )
    &&& c == (if n == 0 {
        kept
    } else {
        bit(
            x,
            if n < 32 {
                n - 1
            } else {
                31
            },
        )
    })
}

/// `v` is `x` rotated to the right by `n`, and `c` its top bit.
pub open spec fn is_rotation(x: u32, n: int, kept: bool, v: u32, c: bool, i: int) -> bool {
    &&& bit(v, i) == bit(x, (i + n) % 32)
    &&& c == (if n == 0 {
        kept
    } else {
        bit(v, 31)
    })
}

#[verifier::rlimit(40)]
proof fn lemma_shifts(x: u32, n: u32, c: bool, i: int)
    requires
        0 <= i < 32,
    ensures
        is_left_shift(x, n as int, c, lsl(x, n, c).value, lsl(x, n, c).carry, i),
        is_right_shift(x, n as int, c, lsr(x, n, c).value, lsr(x, n, c).carry, i),
        is_signed_shift(x, n as int, c, asr_c(x, n, c).value, asr_c(x, n, c).carry, i),
{
    let k = if n < 32 {
        n
    } else {
        0
    };
    let y = !x;
    lemma_bit_ops(x, 0, i as u32, k);
    lemma_bit_ops(y, 0, i as u32, k);
    lemma_bit_ops(y >> k, 0, i as u32, 0);
    lemma_bit_ops(x, 0, 31, 0);
    if i + n < 32 {
        lemma_bit_ops(x, 0, (i + n) as u32, 0);
    }
}

#[verifier::rlimit(40)]
proof fn lemma_rotation(x: u32, n: u32, c: bool, i: int)
    requires
        0 <= i < 32,
    ensures
        is_rotation(x, n as int, c, ror(x, n, c).value, ror(x, n, c).carry, i),
{
    let k = n % 32;
    if k != 0 {
        let left = (32 - k) as u32;
        lemma_bit_ops(x >> k, x << left, i as u32, 0);
        lemma_bit_ops(x, 0, i as u32, k);
        lemma_bit_ops(x, 0, i as u32, left);
    }
    lemma_bit_ops(x, 0, 31, 0);
    lemma_bit_ops(ror(x, n, c).value, 0, 31, 0);
}

/// Shifts by an immediate, in which a right shift by zero stands for one by
/// 32.
#[verifier::rlimit(40)]
pub proof fn law_shifts_by_immediate(cpu: CortexM0Plus, bus: BusState, d: int, m: int, n: int, i: int)
    requires
        0 <= d < 8,
        0 <= m < 8,
        0 <= n < 32,
        0 <= i < 32,
    ensures
        ({
            let x = cpu.regs.r[m];
            let before = cpu.regs.xpsr;
            let kept = before & 0x2000_0000 != 0;
            let count = if n == 0 {
                32
            } else {
                n
            };
            let lsls = ran(cpu, bus, 64 * n + 8 * m + d);
            let lsrs = ran(cpu, bus, 0x800 + 64 * n + 8 * m + d);
            let asrs = ran(cpu, bus, 0x1000 + 64 * n + 8 * m + d);
            let carry_of = |e: Effect| flags(e.cpu.regs.xpsr).2;
            &&& is_left_shift(x, n, kept, lsls.cpu.regs.r[d], carry_of(lsls), i)
            &&& is_right_shift(x, count, kept, lsrs.cpu.regs.r[d], carry_of(lsrs), i)
            &&& is_signed_shift(x, count, kept, asrs.cpu.regs.r[d], carry_of(asrs), i)
            &&& flags_of_shift(before, lsls.cpu.regs.xpsr, lsls.cpu.regs.r[d], carry_of(lsls))
            &&& flags_of_shift(before, lsrs.cpu.regs.xpsr, lsrs.cpu.regs.r[d], carry_of(lsrs))
            &&& flags_of_shift(before, asrs.cpu.regs.xpsr, asrs.cpu.regs.r[d], carry_of(asrs))
            &&& only_sets(cpu, bus, lsls, d)
            &&& only_sets(cpu, bus, lsrs, d)
            &&& only_sets(cpu, bus, asrs, d)
        }),
{
    let x = cpu.regs.r[m];
    let c = cpu.regs.c();
    let n32 = if n == 0 {
        32u32
    } else {
        n as u32
    };
    lemma_shift_fields(0, n, d, m);
    lemma_shift_fields(1, n, d, m);
    lemma_shift_fields(2, n, d, m);
    lemma_groups(cpu, bus, (64 * n + 8 * m + d) as u16);
    lemma_groups(cpu, bus, (0x800 + 64 * n + 8 * m + d) as u16);
    lemma_groups(cpu, bus, (0x1000 + 64 * n + 8 * m + d) as u16);
    lemma_shifts(x, n as u32, c, i);
    lemma_shifts(x, n32, c, i);
    lemma_shift(cpu, bus, d, lsl(x, n as u32, c));
    lemma_shift(cpu, bus, d, lsr(x, n32, c));
    lemma_shift(cpu, bus, d, asr_c(x, n32, c));
}

#[verifier::rlimit(40)]
proof fn lemma_shift_fields(kind: int, n: int, d: int, m: int)
    requires
        0 <= kind < 3,
        0 <= n < 32,
        0 <= d < 8,
        0 <= m < 8,
    ensures
        ({
            let op = (0x800 * kind + 64 * n + 8 * m + d) as u16;
            op % 8 == d && op / 8 % 8 == m && op / 64 % 32 == n && op / 0x800 % 4 == kind && op / 0x800 < 3
        }),
{
    let high = 32 * kind + n;
    let upper = 8 * high + m;
    let op = (0x800 * kind + 64 * n + 8 * m + d) as u16;
    assert(op == 8 * upper + d);
    assert(op / 8 == upper);
    assert(upper / 8 == high && upper % 8 == m);
    assert(high / 32 == kind && high % 32 == n);
    assert(op / 64 == high);
    assert(op / 0x800 == kind);
}

/// Shifts by the low byte of a register.
#[verifier::rlimit(40)]
pub proof fn law_shifts_by_register(cpu: CortexM0Plus, bus: BusState, d: int, m: int, i: int)
    requires
        0 <= d < 8,
        0 <= m < 8,
        0 <= i < 32,
    ensures
        ({
            let x = cpu.regs.r[d];
            let n = cpu.regs.r[m] as int % 256;
            let before = cpu.regs.xpsr;
            let kept = before & 0x2000_0000 != 0;
            let lsls = ran(cpu, bus, 0x4080 + 8 * m + d);
            let lsrs = ran(cpu, bus, 0x40C0 + 8 * m + d);
            let asrs = ran(cpu, bus, 0x4100 + 8 * m + d);
            let rors = ran(cpu, bus, 0x41C0 + 8 * m + d);
            let carry_of = |e: Effect| flags(e.cpu.regs.xpsr).2;
            &&& is_left_shift(x, n, kept, lsls.cpu.regs.r[d], carry_of(lsls), i)
            &&& is_right_shift(x, n, kept, lsrs.cpu.regs.r[d], carry_of(lsrs), i)
            &&& is_signed_shift(x, n, kept, asrs.cpu.regs.r[d], carry_of(asrs), i)
            &&& is_rotation(x, n, kept, rors.cpu.regs.r[d], carry_of(rors), i)
            &&& flags_of_shift(before, lsls.cpu.regs.xpsr, lsls.cpu.regs.r[d], carry_of(lsls))
            &&& flags_of_shift(before, lsrs.cpu.regs.xpsr, lsrs.cpu.regs.r[d], carry_of(lsrs))
            &&& flags_of_shift(before, asrs.cpu.regs.xpsr, asrs.cpu.regs.r[d], carry_of(asrs))
            &&& flags_of_shift(before, rors.cpu.regs.xpsr, rors.cpu.regs.r[d], carry_of(rors))
            &&& only_sets(cpu, bus, lsls, d)
            &&& only_sets(cpu, bus, lsrs, d)
            &&& only_sets(cpu, bus, asrs, d)
            &&& only_sets(cpu, bus, rors, d)
        }),
{
    let x = cpu.regs.r[d];
    let n = cpu.regs.r[m] % 0x100;
    let c = cpu.regs.c();
    lemma_two_registers(cpu, bus, 2, d, m);
    lemma_two_registers(cpu, bus, 3, d, m);
    lemma_two_registers(cpu, bus, 4, d, m);
    lemma_two_registers(cpu, bus, 7, d, m);
    lemma_shifts(x, n, c, i);
    lemma_rotation(x, n, c, i);
    lemma_shift(cpu, bus, d, lsl(x, n, c));
    lemma_shift(cpu, bus, d, lsr(x, n, c));
    lemma_shift(cpu, bus, d, asr_c(x, n, c));
    lemma_shift(cpu, bus, d, ror(x, n, c));
}

#[verifier::rlimit(40)]
proof fn lemma_three_operand_fields(kind: int, x: int, n: int, d: int)
    requires
        0 <= kind < 4,
        0 <= x < 8,
        0 <= n < 8,
        0 <= d < 8,
    ensures
        ({
            let op = (0x1800 + 0x200 * kind + 64 * x + 8 * n + d) as u16;
            &&& op % 8 == d && op / 8 % 8 == n && op / 64 % 8 == x && op / 0x800 == 3
            &&& op / 0x200 % 2 == kind % 2 && op / 0x400 % 2 == kind / 2
        }),
{
    let low = 64 * x + 8 * n + d;
    let op = (0x1800 + 0x200 * kind + low) as u16;
    assert(low % 8 == d && low / 8 == 8 * x + n && low < 0x200);
    assert(op / 0x200 == 12 + kind && op % 0x200 == low);
    assert(op / 0x400 == 6 + kind / 2);
    assert(op / 0x800 == 3);
    assert(op / 8 == 0x40 * (12 + kind) + 8 * x + n);
    assert(op / 64 == 8 * (12 + kind) + x);
}

/// `adds` and `subs` of three operands: the third is a register or a number
/// below eight.
#[verifier::rlimit(40)]
pub proof fn law_three_operand_arithmetic(cpu: CortexM0Plus, bus: BusState, x: int, n: int, d: int)
    requires
        0 <= x < 8,
        0 <= n < 8,
        0 <= d < 8,
    ensures
        ({
            let a = cpu.regs.r[n];
            let b = cpu.regs.r[x];
            let add_r = ran(cpu, bus, 0x1800 + 64 * x + 8 * n + d);
            let sub_r = ran(cpu, bus, 0x1A00 + 64 * x + 8 * n + d);
            let add_i = ran(cpu, bus, 0x1C00 + 64 * x + 8 * n + d);
            let sub_i = ran(cpu, bus, 0x1E00 + 64 * x + 8 * n + d);
            &&& adds_up(add_r.cpu.regs.xpsr, add_r.cpu.regs.r[d], a + b, signed(a) + signed(b))
            &&& takes_away(sub_r.cpu.regs.xpsr, sub_r.cpu.regs.r[d], a, b)
            &&& adds_up(add_i.cpu.regs.xpsr, add_i.cpu.regs.r[d], a + x, signed(a) + x)
            &&& takes_away(sub_i.cpu.regs.xpsr, sub_i.cpu.regs.r[d], a, x as u32)
            &&& only_sets(cpu, bus, add_r, d)
            &&& only_sets(cpu, bus, sub_r, d)
            &&& only_sets(cpu, bus, add_i, d)
            &&& only_sets(cpu, bus, sub_i, d)
        }),
{
    let a = cpu.regs.r[n];
    let b = cpu.regs.r[x];
    lemma_three_operand_fields(0, x, n, d);
    lemma_three_operand_fields(1, x, n, d);
    lemma_three_operand_fields(2, x, n, d);
    lemma_three_operand_fields(3, x, n, d);
    lemma_groups(cpu, bus, (0x1800 + 64 * x + 8 * n + d) as u16);
    lemma_groups(cpu, bus, (0x1A00 + 64 * x + 8 * n + d) as u16);
    lemma_groups(cpu, bus, (0x1C00 + 64 * x + 8 * n + d) as u16);
    lemma_groups(cpu, bus, (0x1E00 + 64 * x + 8 * n + d) as u16);
    lemma_adds_up(a, b, false);
    lemma_adds_up(a, b, true);
    lemma_adds_up(a, x as u32, false);
    lemma_adds_up(a, x as u32, true);
    lemma_sum(cpu, bus, d, sum(a, b, false));
    lemma_sum(cpu, bus, d, sum(a, complement(b), true));
    lemma_sum(cpu, bus, d, sum(a, x as u32, false));
    lemma_sum(cpu, bus, d, sum(a, complement(x as u32), true));
}

#[verifier::rlimit(40)]
proof fn lemma_immediate_fields(kind: int, d: int, imm: int)
    requires
        0 <= kind < 4,
        0 <= d < 8,
        0 <= imm < 256,
    ensures
        ({
            let op = (0x2000 + 0x800 * kind + 0x100 * d + imm) as u16;
            op / 0x100 % 8 == d && op % 0x100 == imm && op / 0x800 == 4 + kind && op / 0x800 % 4 == kind
        }),
{
}

/// `movs`, `cmp`, `adds` and `subs` of a byte.
#[verifier::rlimit(40)]
pub proof fn law_byte_immediates(cpu: CortexM0Plus, bus: BusState, d: int, imm: int)
    requires
        0 <= d < 8,
        0 <= imm < 256,
    ensures
        ({
            let a = cpu.regs.r[d];
            let movs = ran(cpu, bus, 0x2000 + 0x100 * d + imm);
            let difference = ran(cpu, bus, 0x2800 + 0x100 * d + imm);
            let adds = ran(cpu, bus, 0x3000 + 0x100 * d + imm);
            let subs = ran(cpu, bus, 0x3800 + 0x100 * d + imm);
            &&& movs.cpu.regs.r[d] == imm
            &&& flags_of_logic(cpu.regs.xpsr, movs.cpu.regs.xpsr, imm as u32)
            &&& adds_up(adds.cpu.regs.xpsr, adds.cpu.regs.r[d], a + imm, signed(a) + imm)
            &&& takes_away(subs.cpu.regs.xpsr, subs.cpu.regs.r[d], a, imm as u32)
            &&& difference.cpu.regs.xpsr == subs.cpu.regs.xpsr
            &&& only_sets(cpu, bus, movs, d)
            &&& only_sets(cpu, bus, difference, -1)
            &&& only_sets(cpu, bus, adds, d)
            &&& only_sets(cpu, bus, subs, d)
        }),
{
    let a = cpu.regs.r[d];
    let b = imm as u32;
    lemma_immediate_fields(0, d, imm);
    lemma_immediate_fields(1, d, imm);
    lemma_immediate_fields(2, d, imm);
    lemma_immediate_fields(3, d, imm);
    lemma_groups(cpu, bus, (0x2000 + 0x100 * d + imm) as u16);
    lemma_groups(cpu, bus, (0x2800 + 0x100 * d + imm) as u16);
    lemma_groups(cpu, bus, (0x3000 + 0x100 * d + imm) as u16);
    lemma_groups(cpu, bus, (0x3800 + 0x100 * d + imm) as u16);
    lemma_adds_up(a, b, false);
    lemma_adds_up(a, b, true);
    lemma_logic(cpu, bus, d, b);
    lemma_sum(cpu, bus, d, sum(a, b, false));
    lemma_sum(cpu, bus, d, sum(a, complement(b), true));
}

} // verus!
