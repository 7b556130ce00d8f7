//! How the clocks follow from the oscillators, the loops and the clock
//! registers.
use vstd::arithmetic::div_mod::lemma_fundamental_div_mod;
use vstd::prelude::*;

use crate::bits::lemma_bit_ops;
use crate::bus::map_laws::{lemma_shown, lemma_written, shown, written};
use crate::bus::model::{divided, pll_hz, store_index, BusState};
use crate::clocks::Pll;
use crate::clocks_laws::can_lock;
use crate::peripherals::laws::{lemma_fields, lemma_ported, takes};

verus! {

pub open spec fn at_least_one(n: int) -> int {
    if n == 0 {
        1
    } else {
        n
    }
}

/// A frequency through a divider, as large as a register can tell.
pub open spec fn over(hz: int, div: int) -> int {
    let q = hz / at_least_one(div);
    if q > 0xFFFF_FFFF {
        0xFFFF_FFFF
    } else {
        q
    }
}

proof fn lemma_clock_fields(x: u32)
    by (bit_vector)
    ensures
        x & 0x1 == x % 2,
        x & 0x3 == x % 4,
        x & 0x3F == x % 64,
        x & 0xFFF == x % 4096,
        (x >> 5) & 0x7 == x / 32 % 8,
        (x >> 8) & 0x3 == x / 256 % 4,
        x >> 8 == x / 256,
        (x >> 16) & 0x7 == x / 0x1_0000 % 8,
        (x >> 12) & 0x7 == x / 0x1000 % 8,
{
}

/// The frequency of a loop: the crystal's twelve million, over the reference
/// divider, times the feedback divider, over both post-dividers, where a
/// divider of zero counts as one. A loop that cannot lock gives nothing.
#[verifier::rlimit(40)]
pub proof fn law_loop_frequency(p: Pll)
    ensures
        !can_lock(p) ==> pll_hz(p) == 0,
        can_lock(p) ==> ({
            let refdiv = at_least_one(p.cs as int % 64);
            let post = at_least_one(p.prim as int / 0x1_0000 % 8) * at_least_one(p.prim as int / 0x1000 % 8);
            let vco = 12_000_000int / refdiv * (p.fbdiv as int % 4096);
            pll_hz(p) * post <= vco < (pll_hz(p) + 1) * post
        }),
{
    lemma_fields(p.pwr);
    lemma_clock_fields(p.cs);
    lemma_clock_fields(p.prim);
    lemma_clock_fields(p.fbdiv);
    let refdiv = at_least_one(p.cs as int % 64);
    let a = at_least_one(p.prim as int / 0x1_0000 % 8);
    let c = at_least_one(p.prim as int / 0x1000 % 8);
    let post = a * c;
    let vco = 12_000_000int / refdiv * (p.fbdiv as int % 4096);
    assert(post > 0) by (nonlinear_arith)
        requires
            a > 0,
            c > 0,
            post == a * c,
    ;
    if can_lock(p) {
        assert(pll_hz(p) == vco / post);
        let q = vco / post;
        lemma_fundamental_div_mod(vco, post);
        assert(post * q == q * post) by (nonlinear_arith);
        assert((q + 1) * post == q * post + post) by (nonlinear_arith);
    }
}

#[verifier::rlimit(40)]
proof fn lemma_over(hz: int, div: u32)
    requires
        hz >= 0,
    ensures
        divided(hz, div) == over(hz, div as int),
{
    if div != 0 {
        vstd::arithmetic::div_mod::lemma_div_pos_is_pos(hz, div as int);
    }
}

#[verifier::rlimit(40)]
proof fn lemma_loop_is_positive(p: Pll)
    ensures
        pll_hz(p) >= 0,
{
    law_loop_frequency(p);
    if can_lock(p) {
        let refdiv = at_least_one(p.cs as int % 64);
        let a = at_least_one(p.prim as int / 0x1_0000 % 8);
        let c = at_least_one(p.prim as int / 0x1000 % 8);
        let post = a * c;
        let f = p.fbdiv as int % 4096;
        let r = 12_000_000int / refdiv;
        let vco = r * f;
        let q = pll_hz(p);
        assert(r >= 0) by (nonlinear_arith)
            requires
                r == 12_000_000int / refdiv,
                refdiv > 0,
        ;
        assert(q >= 0) by (nonlinear_arith)
            requires
                r >= 0,
                f >= 0,
                vco == r * f,
                vco < (q + 1) * post,
                a > 0,
                c > 0,
                post == a * c,
        ;
    }
}

/// The clock registers that are shown are those that the clocks follow from.
#[verifier::rlimit(40)]
proof fn lemma_clock_register(b: BusState, off: u32)
    requires
        b.apb.len() == 32768,
        off < 0x1000,
        off % 4 == 0,
    ensures
        shown(b, 0x4000_8000, off) == b.stored(0x4000_8000, off),
        b.stored(0x4000_8000, off) == b.apb[2048 + off / 4],
{
    lemma_shown(b, 0x4000_8000, off);
    lemma_bit_ops(b.resets, 0, 0, 0);
    assert(store_index(0x4000_8000, off) == 2048 + off / 4);
}

/// The reference clock: the ring oscillator, the crystal or the second loop,
/// through its divider. The system clock: the reference clock, or what its
/// register selects instead, through its divider. The peripheral clock: the
/// system clock, or what its register selects instead.
#[verifier::rlimit(40)]
pub proof fn law_clock_tree(b: BusState)
    requires
        b.apb.len() == 32768,
    ensures
        ({
            let t = b.derived_clocks();
            let ref_source = shown(b, 0x4000_8000, 0x30) as int % 4;
            let sys_control = shown(b, 0x4000_8000, 0x3C) as int;
            let sys_source = sys_control / 32 % 8;
            let peri_source = shown(b, 0x4000_8000, 0x48) as int / 32 % 8;
            &&& t.ref_clk_hz == over(
                if ref_source == 0 {
                    b.rosc_hz as int
                } else if ref_source == 2 {
                    12_000_000
                } else {
                    pll_hz(b.pll_usb)
                },
                shown(b, 0x4000_8000, 0x34) as int / 256 % 4,
            )
            &&& t.sys_clk_hz == over(
                if sys_control % 2 == 0 {
                    t.ref_clk_hz as int
                } else if sys_source == 0 {
                    pll_hz(b.pll_sys)
                } else if sys_source == 1 {
                    pll_hz(b.pll_usb)
                } else if sys_source == 2 {
                    b.rosc_hz as int
                } else {
                    12_000_000
                },
                shown(b, 0x4000_8000, 0x40) as int / 256,
            )
            &&& t.peri_clk_hz == over(
                if peri_source == 1 {
                    pll_hz(b.pll_sys)
                } else if peri_source == 2 {
                    pll_hz(b.pll_usb)
                } else if peri_source == 3 {
                    b.rosc_hz as int
                } else if peri_source == 4 {
                    12_000_000
                } else {
                    t.sys_clk_hz as int
                },
                1,
            )
        }),
{
    lemma_clock_register(b, 0x30);
    lemma_clock_register(b, 0x34);
    lemma_clock_register(b, 0x3C);
    lemma_clock_register(b, 0x40);
    lemma_clock_register(b, 0x48);
    let ref_ctrl = shown(b, 0x4000_8000, 0x30);
    let ref_div = shown(b, 0x4000_8000, 0x34);
    let sys_ctrl = shown(b, 0x4000_8000, 0x3C);
    let sys_div = shown(b, 0x4000_8000, 0x40);
    let peri_ctrl = shown(b, 0x4000_8000, 0x48);
    lemma_clock_fields(ref_ctrl);
    lemma_clock_fields(ref_div);
    lemma_clock_fields(sys_ctrl);
    lemma_clock_fields(sys_div);
    lemma_clock_fields(peri_ctrl);
    lemma_loop_is_positive(b.pll_sys);
    lemma_loop_is_positive(b.pll_usb);
    let sys = pll_hz(b.pll_sys);
    let usb = pll_hz(b.pll_usb);
    let ref_in = if ref_ctrl as int % 4 == 0 {
        b.rosc_hz as int
    } else if ref_ctrl as int % 4 == 2 {
        12_000_000
    } else {
        usb
    };
    lemma_over(ref_in, (ref_div >> 8) & 0x3);
    let ref_hz = divided(ref_in, (ref_div >> 8) & 0x3);
    let aux = sys_ctrl as int / 32 % 8;
    let sys_in = if sys_ctrl as int % 2 == 0 {
        ref_hz as int
    } else if aux == 0 {
        sys
    } else if aux == 1 {
        usb
    } else if aux == 2 {
        b.rosc_hz as int
    } else {
        12_000_000
    };
    lemma_over(sys_in, sys_div >> 8);
    let sys_hz = divided(sys_in, sys_div >> 8);
    let paux = peri_ctrl as int / 32 % 8;
    let peri_in = if paux == 1 {
        sys
    } else if paux == 2 {
        usb
    } else if paux == 3 {
        b.rosc_hz as int
    } else if paux == 4 {
        12_000_000
    } else {
        sys_hz as int
    };
    lemma_over(peri_in, 0);
}

/// A clock register keeps what is written to it, bit by bit, leaves the
/// others alone, and the clocks follow at once.
#[verifier::rlimit(40)]
pub proof fn law_clock_registers(b: BusState, off: u32, other: u32, port: u32, val: u32, i: int)
    requires
        b.apb.len() == 32768,
        b.clock_tree == b.derived_clocks(),
        off < 0x1000,
        other < 0x1000,
        off % 4 == 0,
        other % 4 == 0,
        off != other,
        port < 4,
        0 <= i < 32,
    ensures
        ({
            let after = written(b, 0x4000_8000, off, port, val);
            &&& takes(shown(b, 0x4000_8000, off), shown(after, 0x4000_8000, off), val, port, i, true)
            &&& shown(after, 0x4000_8000, other) == shown(b, 0x4000_8000, other)
            &&& after.clock_tree == after.derived_clocks()
            &&& after.resets == b.resets
        }),
{
    let a = (0x4000_8000 + 0x1000 * port + off) as u32;
    let after = written(b, 0x4000_8000, off, port, val);
    lemma_written(b, 0x4000_8000, off, port, val);
    lemma_clock_register(b, off);
    lemma_clock_register(b, other);
    lemma_bit_ops(b.resets, 0, 0, 0);
    assert(b.after_apb_write(a, val) == b.after_store(0x4000_8000, off, val, port)) by {
        reveal(BusState::after_apb_write);
    }
    let k = 2048 + off / 4;
    let word = crate::bits::aliased(b.apb[k], val, port);
    assert(after.apb == b.apb.update(k, word));
    lemma_clock_register(after, off);
    lemma_clock_register(after, other);
    lemma_ported(b.apb[k], val, port, 0, i);
    assert(after.stored(0x4000_8000, other) == b.stored(0x4000_8000, other));
    lemma_follows(b, after, off);
}

/// Clocks that were derived before a register changed, and again after it if
/// they depend on it, are those that follow from the registers.
#[verifier::rlimit(40)]
proof fn lemma_follows(b: BusState, after: BusState, off: u32)
    requires
        b.apb.len() == 32768,
        off % 4 == 0,
        off < 0x1000,
        b.clock_tree == b.derived_clocks(),
        after.apb.len() == 32768,
        forall|j: int| 0 <= j < 32768 && j != 2048 + off / 4 ==> after.apb[j] == b.apb[j],
        after.pll_sys == b.pll_sys,
        after.pll_usb == b.pll_usb,
        after.rosc_hz == b.rosc_hz,
        off == 0x30 || off == 0x34 || off == 0x3C || off == 0x40 || off == 0x48 ==> after.clock_tree
            == after.derived_clocks(),
        !(off == 0x30 || off == 0x34 || off == 0x3C || off == 0x40 || off == 0x48) ==> after.clock_tree
            == b.clock_tree,
    ensures
        after.clock_tree == after.derived_clocks(),
{
    lemma_clock_register(b, 0x30);
    lemma_clock_register(b, 0x34);
    lemma_clock_register(b, 0x3C);
    lemma_clock_register(b, 0x40);
    lemma_clock_register(b, 0x48);
    lemma_clock_register(after, 0x30);
    lemma_clock_register(after, 0x34);
    lemma_clock_register(after, 0x3C);
    lemma_clock_register(after, 0x40);
    lemma_clock_register(after, 0x48);
}

} // verus!
