//! Where on the bus each memory and register block is.
use vstd::array::spec_array_update;
use vstd::prelude::*;

use crate::bits::{bit, lemma_bit_ops};
use crate::bus::lane_laws::{law_lanes, lemma_parts};
use crate::bus::model::BusState;
use crate::bus::TraceEntry;
use crate::memory::{load_or_zero, Width};

verus! {

/// The word that a read at `base` plus `off` gives.
pub open spec fn shown(b: BusState, base: int, off: u32) -> u32 {
    b.value_at((base + off) as u32, Width::Word)
}

/// The bus after `val` is written at `base` plus `off` through port `port`,
/// which is four kilobytes further up for each port.
pub open spec fn written(b: BusState, base: int, off: u32, port: u32, val: u32) -> BusState {
    b.after_write((base + 0x1000 * port + off) as u32, Width::Word, val)
}

/// The record of that write.
pub open spec fn noted(b: BusState, base: int, off: u32, port: u32, val: u32) -> BusState {
    b.traced(TraceEntry { write: true, width: Width::Word, addr: (base + 0x1000 * port + off) as u32, value: val })
}

#[verifier::rlimit(40)]
pub proof fn lemma_shown(b: BusState, base: int, off: u32)
    requires
        0x4000_0000 <= base < 0x6000_0000,
        base % 0x4000 == 0,
        off < 0x1000,
        off % 4 == 0,
    ensures
        base < 0x5000_0000 ==> shown(b, base, off) == b.apb_word((base + off) as u32),
        base >= 0x5000_0000 ==> shown(b, base, off) == b.ahb_word((base + off) as u32),
        ((base + off) as u32) & 0xFFFF_C000 == base,
        ((base + off) as u32) & 0xFFF == off,
{
    let a = (base + off) as u32;
    lemma_parts(a);
    law_lanes(b.apb_word(a), a);
    law_lanes(b.ahb_word(a), a);
    reveal(BusState::value_at);
}

#[verifier::rlimit(40)]
pub proof fn lemma_written(b: BusState, base: int, off: u32, port: u32, val: u32)
    requires
        0x4000_0000 <= base < 0x6000_0000,
        base % 0x4000 == 0,
        off < 0x1000,
        port < 4,
    ensures
        ({
            let a = (base + 0x1000 * port + off) as u32;
            &&& base < 0x5000_0000 ==> written(b, base, off, port, val) == b.after_apb_write(a, val).traced(
                TraceEntry { write: true, width: Width::Word, addr: a, value: val },
            )
            &&& base >= 0x5000_0000 ==> written(b, base, off, port, val) == b.after_ahb_write(
                a,
                Width::Word,
                val,
            ).traced(TraceEntry { write: true, width: Width::Word, addr: a, value: val })
            &&& a & 0xFFFF_C000 == base
            &&& a & 0xFFF == off
            &&& (a >> 12) & 0x3 == port
        }),
{
    let a = (base + 0x1000 * port + off) as u32;
    lemma_port(base, off, port);
    if base < 0x5000_0000 {
        lemma_slow_write(b, a, val);
    } else {
        lemma_fast_write(b, a, val);
    }
}

#[verifier::rlimit(40)]
proof fn lemma_port(base: int, off: u32, port: u32)
    requires
        0x4000_0000 <= base < 0x6000_0000,
        base % 0x4000 == 0,
        off < 0x1000,
        port < 4,
    ensures
        ({
            let a = (base + 0x1000 * port + off) as u32;
            &&& a >> 28 == a / 0x1000_0000
            &&& a / 0x1000_0000 == (if base < 0x5000_0000 {
                4int
            } else {
                5int
            })
            &&& a & 0xFFFF_C000 == base
            &&& a & 0xFFF == off
            &&& (a >> 12) & 0x3 == port
        }),
{
    lemma_parts((base + 0x1000 * port + off) as u32);
}

#[verifier::rlimit(40)]
proof fn lemma_slow_write(b: BusState, a: u32, val: u32)
    requires
        a >> 28 == 4,
    ensures
        b.after_write(a, Width::Word, val) == b.after_apb_write(a, val).traced(
            TraceEntry { write: true, width: Width::Word, addr: a, value: val },
        ),
{
    assert(b.after_update(a, Width::Word, val) == b.after_apb_write(a, val)) by {
        reveal(BusState::after_update);
    }
    reveal(BusState::after_write);
}

#[verifier::rlimit(40)]
proof fn lemma_fast_write(b: BusState, a: u32, val: u32)
    requires
        a >> 28 == 5,
    ensures
        b.after_write(a, Width::Word, val) == b.after_ahb_write(a, Width::Word, val).traced(
            TraceEntry { write: true, width: Width::Word, addr: a, value: val },
        ),
{
    assert(b.after_update(a, Width::Word, val) == b.after_ahb_write(a, Width::Word, val)) by {
        reveal(BusState::after_update);
    }
    reveal(BusState::after_write);
}

/// Each serial, analogue and timing block shows its registers at its own
/// place, unless its own line of the reset register holds it: then it shows
/// zero.
#[verifier::rlimit(40)]
pub proof fn law_block_places(b: BusState, off: u32)
    requires
        off < 0x1000,
        off % 4 == 0,
    ensures
        shown(b, 0x4003_4000, off) == (if bit(b.resets, 22) {
            0
        } else {
            b.uart0.state.word_at(off)
        }),
        shown(b, 0x4003_8000, off) == (if bit(b.resets, 23) {
            0
        } else {
            b.uart1.state.word_at(off)
        }),
        shown(b, 0x4003_C000, off) == (if bit(b.resets, 16) {
            0
        } else {
            b.spi0.word_at(off)
        }),
        shown(b, 0x4004_0000, off) == (if bit(b.resets, 17) {
            0
        } else {
            b.spi1.word_at(off)
        }),
        shown(b, 0x4004_4000, off) == (if bit(b.resets, 3) {
            0
        } else {
            b.i2c0.word_at(off)
        }),
        shown(b, 0x4004_8000, off) == (if bit(b.resets, 4) {
            0
        } else {
            b.i2c1.word_at(off)
        }),
        shown(b, 0x4004_C000, off) == (if bit(b.resets, 0) {
            0
        } else {
            b.adc.word_at(off)
        }),
        shown(b, 0x4005_0000, off) == (if bit(b.resets, 14) {
            0
        } else {
            b.pwm.word_at(off)
        }),
        shown(b, 0x4005_4000, off) == (if bit(b.resets, 21) {
            0
        } else {
            b.timer.word_at(off, b.master_cycle, b.clock_tree.sys_clk_hz)
        }),
        shown(b, 0x4005_8000, off) == (if bit(b.resets, 24) {
            0
        } else {
            b.watchdog_tick.word_at(off)
        }),
{
    lemma_shown(b, 0x4003_4000, off);
    lemma_bit_ops(b.resets, 0, 22, 0);
    lemma_shown(b, 0x4003_8000, off);
    lemma_bit_ops(b.resets, 0, 23, 0);
    lemma_shown(b, 0x4003_C000, off);
    lemma_bit_ops(b.resets, 0, 16, 0);
    lemma_shown(b, 0x4004_0000, off);
    lemma_bit_ops(b.resets, 0, 17, 0);
    lemma_shown(b, 0x4004_4000, off);
    lemma_bit_ops(b.resets, 0, 3, 0);
    lemma_shown(b, 0x4004_8000, off);
    lemma_bit_ops(b.resets, 0, 4, 0);
    lemma_shown(b, 0x4004_C000, off);
    lemma_bit_ops(b.resets, 0, 0, 0);
    lemma_shown(b, 0x4005_0000, off);
    lemma_bit_ops(b.resets, 0, 14, 0);
    lemma_shown(b, 0x4005_4000, off);
    lemma_bit_ops(b.resets, 0, 21, 0);
    lemma_shown(b, 0x4005_8000, off);
    lemma_bit_ops(b.resets, 0, 24, 0);
}

/// A write to this block reaches its registers through all four ports and
/// nothing else, unless its line of the reset register holds it.
#[verifier::rlimit(40)]
pub proof fn law_writes_reach_uart0(b: BusState, off: u32, port: u32, val: u32)
    requires
        off < 0x1000,
        port < 4,
    ensures
        written(b, 0x4003_4000, off, port, val) == noted(
            if bit(b.resets, 22) {
                b
            } else {
                BusState {
                    uart0: b.uart0.after_write(off, val, port),
                    irq_pending: b.uart0.after_write(off, val, port).state.routed(b.irq_pending),
                    ..b
                }
            },
            0x4003_4000,
            off,
            port,
            val,
        ),
{
    lemma_written(b, 0x4003_4000, off, port, val);
    lemma_bit_ops(b.resets, 0, 22, 0);
    reveal(BusState::after_apb_write);
}

/// A write to this block reaches its registers through all four ports and
/// nothing else, unless its line of the reset register holds it.
#[verifier::rlimit(40)]
pub proof fn law_writes_reach_uart1(b: BusState, off: u32, port: u32, val: u32)
    requires
        off < 0x1000,
        port < 4,
    ensures
        written(b, 0x4003_8000, off, port, val) == noted(
            if bit(b.resets, 23) {
                b
            } else {
                BusState {
                    uart1: b.uart1.after_write(off, val, port),
                    irq_pending: b.uart1.after_write(off, val, port).state.routed(b.irq_pending),
                    ..b
                }
            },
            0x4003_8000,
            off,
            port,
            val,
        ),
{
    lemma_written(b, 0x4003_8000, off, port, val);
    lemma_bit_ops(b.resets, 0, 23, 0);
    reveal(BusState::after_apb_write);
}

/// A write to this block reaches its registers through all four ports and
/// nothing else, unless its line of the reset register holds it.
#[verifier::rlimit(40)]
pub proof fn law_writes_reach_spi0(b: BusState, off: u32, port: u32, val: u32)
    requires
        off < 0x1000,
        port < 4,
    ensures
        written(b, 0x4003_C000, off, port, val) == noted(
            if bit(b.resets, 16) {
                b
            } else {
                BusState {
                    spi0: b.spi0.after_write(off, val, port),
                    irq_pending: b.spi0.after_write(off, val, port).routed(b.irq_pending),
                    ..b
                }
            },
            0x4003_C000,
            off,
            port,
            val,
        ),
{
    lemma_written(b, 0x4003_C000, off, port, val);
    lemma_bit_ops(b.resets, 0, 16, 0);
    reveal(BusState::after_apb_write);
}

/// A write to this block reaches its registers through all four ports and
/// nothing else, unless its line of the reset register holds it.
#[verifier::rlimit(40)]
pub proof fn law_writes_reach_spi1(b: BusState, off: u32, port: u32, val: u32)
    requires
        off < 0x1000,
        port < 4,
    ensures
        written(b, 0x4004_0000, off, port, val) == noted(
            if bit(b.resets, 17) {
                b
            } else {
                BusState {
                    spi1: b.spi1.after_write(off, val, port),
                    irq_pending: b.spi1.after_write(off, val, port).routed(b.irq_pending),
                    ..b
                }
            },
            0x4004_0000,
            off,
            port,
            val,
        ),
{
    lemma_written(b, 0x4004_0000, off, port, val);
    lemma_bit_ops(b.resets, 0, 17, 0);
    reveal(BusState::after_apb_write);
}

/// A write to this block reaches its registers through all four ports and
/// nothing else, unless its line of the reset register holds it.
#[verifier::rlimit(40)]
pub proof fn law_writes_reach_i2c0(b: BusState, off: u32, port: u32, val: u32)
    requires
        off < 0x1000,
        port < 4,
    ensures
        written(b, 0x4004_4000, off, port, val) == noted(
            if bit(b.resets, 3) {
                b
            } else {
                BusState {
                    i2c0: b.i2c0.after_write(off, val, port),
                    irq_pending: b.i2c0.after_write(off, val, port).routed(b.irq_pending),
                    ..b
                }
            },
            0x4004_4000,
            off,
            port,
            val,
        ),
{
    lemma_written(b, 0x4004_4000, off, port, val);
    lemma_bit_ops(b.resets, 0, 3, 0);
    reveal(BusState::after_apb_write);
}

/// A write to this block reaches its registers through all four ports and
/// nothing else, unless its line of the reset register holds it.
#[verifier::rlimit(40)]
pub proof fn law_writes_reach_i2c1(b: BusState, off: u32, port: u32, val: u32)
    requires
        off < 0x1000,
        port < 4,
    ensures
        written(b, 0x4004_8000, off, port, val) == noted(
            if bit(b.resets, 4) {
                b
            } else {
                BusState {
                    i2c1: b.i2c1.after_write(off, val, port),
                    irq_pending: b.i2c1.after_write(off, val, port).routed(b.irq_pending),
                    ..b
                }
            },
            0x4004_8000,
            off,
            port,
            val,
        ),
{
    lemma_written(b, 0x4004_8000, off, port, val);
    lemma_bit_ops(b.resets, 0, 4, 0);
    reveal(BusState::after_apb_write);
}

/// A write to this block reaches its registers through all four ports and
/// nothing else, unless its line of the reset register holds it.
#[verifier::rlimit(40)]
pub proof fn law_writes_reach_adc(b: BusState, off: u32, port: u32, val: u32)
    requires
        off < 0x1000,
        port < 4,
    ensures
        written(b, 0x4004_C000, off, port, val) == noted(
            if bit(b.resets, 0) {
                b
            } else {
                BusState {
                    adc: b.adc.after_write(off, val, port),
                    irq_pending: b.adc.after_write(off, val, port).routed(b.irq_pending),
                    ..b
                }
            },
            0x4004_C000,
            off,
            port,
            val,
        ),
{
    lemma_written(b, 0x4004_C000, off, port, val);
    lemma_bit_ops(b.resets, 0, 0, 0);
    reveal(BusState::after_apb_write);
}

/// A write to this block reaches its registers through all four ports and
/// nothing else, unless its line of the reset register holds it.
#[verifier::rlimit(40)]
pub proof fn law_writes_reach_pwm(b: BusState, off: u32, port: u32, val: u32)
    requires
        off < 0x1000,
        port < 4,
    ensures
        written(b, 0x4005_0000, off, port, val) == noted(
            if bit(b.resets, 14) {
                b
            } else {
                BusState {
                    pwm: b.pwm.after_write(off, val, port),
                    irq_pending: b.pwm.after_write(off, val, port).routed(b.irq_pending),
                    ..b
                }
            },
            0x4005_0000,
            off,
            port,
            val,
        ),
{
    lemma_written(b, 0x4005_0000, off, port, val);
    lemma_bit_ops(b.resets, 0, 14, 0);
    reveal(BusState::after_apb_write);
}

/// A write to this block reaches its registers through all four ports and
/// nothing else, unless its line of the reset register holds it.
#[verifier::rlimit(40)]
pub proof fn law_writes_reach_timer(b: BusState, off: u32, port: u32, val: u32)
    requires
        off < 0x1000,
        port < 4,
    ensures
        written(b, 0x4005_4000, off, port, val) == noted(
            if bit(b.resets, 21) {
                b
            } else {
                BusState {
                    timer: b.timer.after_write(off, val, port, b.master_cycle, b.clock_tree.sys_clk_hz),
                    ..b
                }
            },
            0x4005_4000,
            off,
            port,
            val,
        ),
{
    lemma_written(b, 0x4005_4000, off, port, val);
    lemma_bit_ops(b.resets, 0, 21, 0);
    reveal(BusState::after_apb_write);
}

/// A write to this block reaches its registers through all four ports and
/// nothing else, unless its line of the reset register holds it.
#[verifier::rlimit(40)]
pub proof fn law_writes_reach_watchdog_tick(b: BusState, off: u32, port: u32, val: u32)
    requires
        off < 0x1000,
        port < 4,
    ensures
        written(b, 0x4005_8000, off, port, val) == noted(
            if bit(b.resets, 24) {
                b
            } else {
                BusState {
                    watchdog_tick: b.watchdog_tick.after_write(off, val, port),
                    ..b
                }
            },
            0x4005_8000,
            off,
            port,
            val,
        ),
{
    lemma_written(b, 0x4005_8000, off, port, val);
    lemma_bit_ops(b.resets, 0, 24, 0);
    reveal(BusState::after_apb_write);
}

/// The controller for transfers answers at the start of its region unless its
/// line of the reset register holds it. The two state-machine blocks answer
/// further up; their last registers are seventeen words nearer on the bus
/// than in the block.
#[verifier::rlimit(40)]
pub proof fn law_fast_block_places(b: BusState, off: u32, port: u32, val: u32)
    requires
        off < 0x1000,
        off % 4 == 0,
        port < 4,
    ensures
        ({
            let inner = (if 0x128 <= off <= 0x140 {
                off + 0x44
            } else {
                off as int
            }) as u32;
            &&& shown(b, 0x5000_0000, off) == (if bit(b.resets, 2) {
                0
            } else {
                b.dma.word_at(off)
            })
            &&& shown(b, 0x5020_0000, off) == b.pio[0].word_at(inner)
            &&& shown(b, 0x5030_0000, off) == b.pio[1].word_at(inner)
            &&& written(b, 0x5000_0000, off, port, val) == noted(
                if bit(b.resets, 2) {
                    b
                } else {
                    BusState { dma: b.dma.after_write(off, val, port), ..b }
                },
                0x5000_0000,
                off,
                port,
                val,
            )
            &&& written(b, 0x5020_0000, off, port, val) == noted(
                BusState { pio: spec_array_update(b.pio, 0, b.pio[0].after_write(inner, val, port)), ..b },
                0x5020_0000,
                off,
                port,
                val,
            )
            &&& written(b, 0x5030_0000, off, port, val) == noted(
                BusState { pio: spec_array_update(b.pio, 1, b.pio[1].after_write(inner, val, port)), ..b },
                0x5030_0000,
                off,
                port,
                val,
            )
        }),
{
    lemma_shown(b, 0x5000_0000, off);
    lemma_shown(b, 0x5020_0000, off);
    lemma_shown(b, 0x5030_0000, off);
    lemma_written(b, 0x5000_0000, off, port, val);
    lemma_written(b, 0x5020_0000, off, port, val);
    lemma_written(b, 0x5030_0000, off, port, val);
    lemma_bit_ops(b.resets, 0, 2, 0);
}

/// The reset register shows the lines that hold, and beside it those that are
/// released; it holds twenty-five lines and takes a write bit by bit. The two
/// loops and the chip number are at their own places.
#[verifier::rlimit(40)]
pub proof fn law_system_block_places(b: BusState, off: u32, port: u32, val: u32, i: int)
    requires
        off < 0x1000,
        off % 4 == 0,
        port < 4,
        0 <= i < 32,
    ensures
        shown(b, 0x4000_C000, 0) == b.resets,
        bit(shown(b, 0x4000_C000, 8), i) == (i < 25 && !bit(b.resets, i)),
        bit(written(b, 0x4000_C000, 0, port, val).resets, i) == (i < 25 && crate::peripherals::laws::ported(
            bit(b.resets, i),
            bit(val, i),
            port,
        )),
        off != 0 ==> written(b, 0x4000_C000, off, port, val) == noted(b, 0x4000_C000, off, port, val),
        shown(b, 0x4002_8000, off) == b.pll_sys.word_at(b.pll_sys_lock_at_cycle, off, b.master_cycle),
        shown(b, 0x4002_C000, off) == b.pll_usb.word_at(b.pll_usb_lock_at_cycle, off, b.master_cycle),
        shown(b, 0x4000_0000, off) == (if off == 0 {
            1u32
        } else {
            0u32
        }),
        written(b, 0x4000_0000, off, port, val) == noted(b, 0x4000_0000, off, port, val),
{
    lemma_shown(b, 0x4000_C000, 0);
    lemma_shown(b, 0x4000_C000, 8);
    lemma_shown(b, 0x4002_8000, off);
    lemma_shown(b, 0x4002_C000, off);
    lemma_shown(b, 0x4000_0000, off);
    lemma_written(b, 0x4000_C000, 0, port, val);
    lemma_written(b, 0x4000_C000, off, port, val);
    lemma_written(b, 0x4000_0000, off, port, val);
    lemma_bit_ops(b.resets, 0, 0, 0);
    lemma_bit_ops(b.resets, 0, i as u32, 0);
    lemma_bit_ops(!b.resets, 0x01FF_FFFF, i as u32, 0);
    crate::peripherals::laws::lemma_mask_bits(i as u32);
    crate::peripherals::laws::lemma_ported(b.resets, val, port, 0x01FF_FFFF, i);
    reveal(BusState::after_apb_write);
}

/// A write to the loop of the system clock reaches that loop alone, sets when
/// it locks, and the clocks follow.
#[verifier::rlimit(40)]
pub proof fn law_writes_reach_pll_sys(b: BusState, off: u32, port: u32, val: u32)
    requires
        off == 0 || off == 4 || off == 8 || off == 12,
        port < 4,
    ensures
        ({
            let after = written(b, 0x4002_8000, off, port, val);
            &&& after.pll_sys == b.pll_sys.after_write(off, val, port)
            &&& after.pll_sys_lock_at_cycle == b.pll_sys.lock_after_write(
                b.pll_sys_lock_at_cycle,
                off,
                val,
                port,
                b.master_cycle,
            )
            &&& after.pll_usb == b.pll_usb
            &&& after.pll_usb_lock_at_cycle == b.pll_usb_lock_at_cycle
            &&& after.clock_tree == after.derived_clocks()
            &&& after.resets == b.resets
            &&& after.apb == b.apb
        }),
{
    let a = (0x4002_8000 + 0x1000 * port + off) as u32;
    let c = b.after_apb_write(a, val);
    lemma_written(b, 0x4002_8000, off, port, val);
    lemma_bit_ops(b.resets, 0, 0, 0);
    let next = BusState {
        pll_sys: b.pll_sys.after_write(off, val, port),
        pll_sys_lock_at_cycle: b.pll_sys.lock_after_write(b.pll_sys_lock_at_cycle, off, val, port, b.master_cycle),
        ..b
    };
    assert(c == next.reclocked()) by {
        reveal(BusState::after_apb_write);
    }
    lemma_clocks_follow(next, TraceEntry { write: true, width: Width::Word, addr: a, value: val });
}

/// A write to the loop of the serial clock reaches that loop alone, sets when
/// it locks, and the clocks follow.
#[verifier::rlimit(40)]
pub proof fn law_writes_reach_pll_usb(b: BusState, off: u32, port: u32, val: u32)
    requires
        off == 0 || off == 4 || off == 8 || off == 12,
        port < 4,
    ensures
        ({
            let after = written(b, 0x4002_C000, off, port, val);
            &&& after.pll_usb == b.pll_usb.after_write(off, val, port)
            &&& after.pll_usb_lock_at_cycle == b.pll_usb.lock_after_write(
                b.pll_usb_lock_at_cycle,
                off,
                val,
                port,
                b.master_cycle,
            )
            &&& after.pll_sys == b.pll_sys
            &&& after.pll_sys_lock_at_cycle == b.pll_sys_lock_at_cycle
            &&& after.clock_tree == after.derived_clocks()
            &&& after.resets == b.resets
            &&& after.apb == b.apb
        }),
{
    let a = (0x4002_C000 + 0x1000 * port + off) as u32;
    let c = b.after_apb_write(a, val);
    lemma_written(b, 0x4002_C000, off, port, val);
    lemma_bit_ops(b.resets, 0, 0, 0);
    let next = BusState {
        pll_usb: b.pll_usb.after_write(off, val, port),
        pll_usb_lock_at_cycle: b.pll_usb.lock_after_write(b.pll_usb_lock_at_cycle, off, val, port, b.master_cycle),
        ..b
    };
    assert(c == next.reclocked()) by {
        reveal(BusState::after_apb_write);
    }
    lemma_clocks_follow(next, TraceEntry { write: true, width: Width::Word, addr: a, value: val });
}

/// Deriving the clocks twice is deriving them once, and a record of an access
/// has no part in it.
#[verifier::rlimit(40)]
proof fn lemma_clocks_follow(b: BusState, entry: TraceEntry)
    ensures
        ({
            let after = b.reclocked().traced(entry);
            &&& after.clock_tree == after.derived_clocks()
            &&& after.pll_sys == b.pll_sys
            &&& after.pll_usb == b.pll_usb
            &&& after.pll_sys_lock_at_cycle == b.pll_sys_lock_at_cycle
            &&& after.pll_usb_lock_at_cycle == b.pll_usb_lock_at_cycle
            &&& after.resets == b.resets
            &&& after.apb == b.apb
        }),
{
    let after = b.reclocked().traced(entry);
    assert(after.stored(0x4000_8000, 0x30) == b.stored(0x4000_8000, 0x30));
    assert(after.stored(0x4000_8000, 0x34) == b.stored(0x4000_8000, 0x34));
    assert(after.stored(0x4000_8000, 0x3C) == b.stored(0x4000_8000, 0x3C));
    assert(after.stored(0x4000_8000, 0x40) == b.stored(0x4000_8000, 0x40));
    assert(after.stored(0x4000_8000, 0x48) == b.stored(0x4000_8000, 0x48));
}

/// The registers that the two cores share, and the pins that they read, are
/// in the region above all others but one; each core has its own registers in
/// the last. Both answer for the core that the bus acts for.
#[verifier::rlimit(40)]
pub proof fn law_core_block_places(b: BusState, off: u32)
    requires
        off < 0x1000,
        off % 4 == 0,
        b.active_core < 2,
    ensures
        shown(b, 0xD000_0000, off) == (if off == 4 {
            b.gpio_in
        } else {
            b.sio.word_at(off, b.active_core)
        }),
        ({
            let n = b.active_core as int;
            let a = (0xE000_E000 + off) as u32;
            shown(b, 0xE000_E000, off) == (if 0x10 <= off < 0x20 {
                b.systicks[n].word_at(off)
            } else if 0x100 <= off < 0x420 {
                b.nvics[n].word_at(off)
            } else {
                b.ppb[n].word_at(a)
            })
        }),
{
    let s = (0xD000_0000 + off) as u32;
    let a = (0xE000_E000 + off) as u32;
    lemma_core_parts(off);
    lemma_core_read(b, s);
    lemma_core_read(b, a);
}

#[verifier::rlimit(40)]
proof fn lemma_core_parts(off: u32)
    requires
        off < 0x1000,
        off % 4 == 0,
    ensures
        ({
            let s = (0xD000_0000 + off) as u32;
            let a = (0xE000_E000 + off) as u32;
            &&& s >> 28 == 0xD && s & 0xFFF == off && s & 0xFFFF_FFFC == s && s % 4 == 0
            &&& a >> 28 == 0xE && a & 0xFFF == off && a & 0xFFFF_FFFC == a && a % 4 == 0
        }),
{
    lemma_parts((0xD000_0000 + off) as u32);
    lemma_parts((0xE000_E000 + off) as u32);
}

#[verifier::rlimit(40)]
proof fn lemma_core_read(b: BusState, a: u32)
    requires
        a % 4 == 0,
        a & 0xFFFF_FFFC == a,
        a >> 28 == 0xD || a >> 28 == 0xE,
    ensures
        a >> 28 == 0xD ==> b.value_at(a, Width::Word) == b.sio_word(a),
        a >> 28 == 0xE ==> b.value_at(a, Width::Word) == b.ppb_word(a),
{
    law_lanes(b.sio_word(a), a);
    law_lanes(b.ppb_word(a), a);
    reveal(BusState::value_at);
}

/// A write to those of a core reaches them and nothing else.
#[verifier::rlimit(40)]
pub proof fn law_writes_reach_the_core(b: BusState, off: u32, val: u32)
    requires
        off < 0x1000,
        off % 4 == 0,
        b.active_core < 2,
    ensures
        ({
            let n = b.active_core as int;
            let a = (0xE000_E000 + off) as u32;
            let after = b.after_write(a, Width::Word, val);
            let entry = TraceEntry { write: true, width: Width::Word, addr: a, value: val };
            &&& 0x10 <= off < 0x20 ==> after == (BusState {
                systicks: spec_array_update(b.systicks, n, b.systicks[n].after_write(off, val)),
                ..b
            }).traced(entry)
            &&& 0x100 <= off < 0x420 ==> after == (BusState {
                nvics: spec_array_update(b.nvics, n, b.nvics[n].after_write(off, val)),
                ..b
            }).traced(entry)
            &&& off < 0x10 || 0x20 <= off < 0x100 || off >= 0x420 ==> after == (BusState {
                ppb: spec_array_update(b.ppb, n, b.ppb[n].after_write(a, val)),
                ..b
            }).traced(entry)
        }),
{
    let a = (0xE000_E000 + off) as u32;
    lemma_core_parts(off);
    assert(b.after_update(a, Width::Word, val) == b.after_ppb_write(a, val)) by {
        reveal(BusState::after_update);
    }
    reveal(BusState::after_write);
}

/// The boot memory is at the bottom; the flash appears four times, one after
/// the other; the cache memory is above it. Where a memory ends it reads as
/// zero.
#[verifier::rlimit(40)]
pub proof fn law_memory_places(b: BusState, at: u32, w: Width)
    requires
        at < 0x100_0000,
    ensures
        b.value_at(at, w) == load_or_zero(b.memory.rom, at as int, w),
        b.value_at((0x1000_0000 + at) as u32, w) == load_or_zero(b.memory.flash, at as int, w),
        b.value_at((0x1100_0000 + at) as u32, w) == load_or_zero(b.memory.flash, at as int, w),
        b.value_at((0x1200_0000 + at) as u32, w) == load_or_zero(b.memory.flash, at as int, w),
        b.value_at((0x1300_0000 + at) as u32, w) == load_or_zero(b.memory.flash, at as int, w),
        b.value_at((0x1500_0000 + at) as u32, w) == load_or_zero(b.memory.xip_sram, at as int, w),
{
    lemma_parts(at);
    lemma_parts((0x1000_0000 + at) as u32);
    lemma_parts((0x1100_0000 + at) as u32);
    lemma_parts((0x1200_0000 + at) as u32);
    lemma_parts((0x1300_0000 + at) as u32);
    lemma_parts((0x1500_0000 + at) as u32);
    reveal(BusState::value_at);
}

/// A narrow read of a register gives that part of what a full read gives.
#[verifier::rlimit(40)]
pub proof fn law_narrow_register_reads(b: BusState, addr: u32)
    requires
        ({
            let region = addr as int / 0x1000_0000;
            region == 4 || region == 5 || region == 0xD || region == 0xE
        }),
    ensures
        ({
            let word = b.value_at((addr - addr % 4) as u32, Width::Word) as int;
            &&& b.value_at(addr, Width::Byte) as int == (if addr as int % 4 == 0 {
                word % 0x100
            } else if addr as int % 4 == 1 {
                word / 0x100 % 0x100
            } else if addr as int % 4 == 2 {
                word / 0x1_0000 % 0x100
            } else {
                word / 0x100_0000
            })
            &&& addr as int % 4 == 0 ==> b.value_at(addr, Width::Half) as int == word % 0x1_0000
            &&& addr as int % 4 == 2 ==> b.value_at(addr, Width::Half) as int == word / 0x1_0000
        }),
{
    let a = (addr - addr % 4) as u32;
    lemma_parts(addr);
    lemma_parts(a);
    let word = if addr / 0x1000_0000 == 4 {
        b.apb_word(a)
    } else if addr / 0x1000_0000 == 5 {
        b.ahb_word(a)
    } else if addr / 0x1000_0000 == 0xD {
        b.sio_word(a)
    } else {
        b.ppb_word(a)
    };
    law_lanes(word, addr);
    law_lanes(word, a);
    reveal(BusState::value_at);
}

/// A record is kept of every access while tracing is on, at its end, and none
/// while it is off.
#[verifier::rlimit(40)]
pub proof fn law_records(b: BusState, addr: u32, w: Width, val: u32)
    ensures
        ({
            let plain = b.after_access(addr, w);
            let traced = b.after_read(addr, w);
            let entry = TraceEntry { write: false, width: w, addr, value: b.value_at(addr, w) };
            &&& traced.mmio_trace == (if plain.mmio_trace_enabled {
                plain.mmio_trace.push(entry)
            } else {
                plain.mmio_trace
            })
            &&& traced.memory == plain.memory
        }),
        ({
            let plain = b.after_update(addr, w, val);
            let traced = b.after_write(addr, w, val);
            let entry = TraceEntry { write: true, width: w, addr, value: val };
            &&& traced.mmio_trace == (if plain.mmio_trace_enabled {
                plain.mmio_trace.push(entry)
            } else {
                plain.mmio_trace
            })
            &&& traced.memory == plain.memory
        }),
{
    reveal(BusState::after_read);
    reveal(BusState::after_write);
}

} // verus!
