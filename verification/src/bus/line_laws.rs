//! Which line of the chip each block asks on, and what reaches the pins.
use vstd::prelude::*;

use crate::bits::{bit, lemma_bit_ops};
use crate::bus::model::BusState;
use crate::bus::service::line;
use crate::peripherals::laws::{lemma_fields, lemma_mask_bits};
use crate::peripherals::{i2c_laws, spi_laws, uart_laws};
use crate::pio::Pio;

verus! {

/// Line `n` of the sixty-four is up.
pub open spec fn up(lines: u64, n: int) -> bool {
    (lines >> (n as u64)) & 1 == 1
}

proof fn lemma_lines(a: u64, b: u64, k: u64, n: u64)
    by (bit_vector)
    requires
        k < 64,
        n < 64,
    ensures
        ((a | b) >> n) & 1 == 1 <==> ((a >> n) & 1 == 1 || (b >> n) & 1 == 1),
        ((1u64 << k) >> n) & 1 == 1 <==> k == n,
        (0u64 >> n) & 1 != 1,
{
}

/// One more line beside others.
#[verifier::rlimit(40)]
proof fn lemma_one_more(a: u64, k: u8, on: bool, n: int)
    requires
        k < 64,
        0 <= n < 64,
    ensures
        up(a | line(k, on), n) == (up(a, n) || (on && n == k)),
        up(line(k, on), n) == (on && n == k),
{
    lemma_lines(a, line(k, on), k as u64, n as u64);
}

/// Two groups of lines side by side.
#[verifier::rlimit(40)]
proof fn lemma_both(a: u64, b: u64, n: int)
    requires
        0 <= n < 64,
    ensures
        up(a | b, n) == (up(a, n) || up(b, n)),
{
    lemma_lines(a, b, 0, n as u64);
}

/// The lines of one block of state machines: four for room to send, four for
/// something received.
#[verifier::rlimit(40)]
proof fn lemma_block_lines(p: Pio, tx: u8, rx: u8, n: int)
    requires
        tx <= 8,
        rx <= 12,
        0 <= n < 64,
    ensures
        up(BusState::pio_dreqs(p, tx, rx), n) == ((n == tx && !p.tx_full(0)) || (n == tx + 1 && !p.tx_full(1)) || (n
            == tx + 2 && !p.tx_full(2)) || (n == tx + 3 && !p.tx_full(3)) || (n == rx && p.sms[0].rx.count > 0) || (n
            == rx + 1 && p.sms[1].rx.count > 0) || (n == rx + 2 && p.sms[2].rx.count > 0) || (n == rx + 3
            && p.sms[3].rx.count > 0)),
{
    let a = line(tx, !p.tx_full(0));
    let b = a | line((tx + 1) as u8, !p.tx_full(1));
    let c = b | line((tx + 2) as u8, !p.tx_full(2));
    let d = c | line((tx + 3) as u8, !p.tx_full(3));
    let e = d | line(rx, p.sms[0].rx.count > 0);
    let f = e | line((rx + 1) as u8, p.sms[1].rx.count > 0);
    let g = f | line((rx + 2) as u8, p.sms[2].rx.count > 0);
    lemma_one_more(0, tx, !p.tx_full(0), n);
    lemma_one_more(a, (tx + 1) as u8, !p.tx_full(1), n);
    lemma_one_more(b, (tx + 2) as u8, !p.tx_full(2), n);
    lemma_one_more(c, (tx + 3) as u8, !p.tx_full(3), n);
    lemma_one_more(d, rx, p.sms[0].rx.count > 0, n);
    lemma_one_more(e, (rx + 1) as u8, p.sms[1].rx.count > 0, n);
    lemma_one_more(f, (rx + 2) as u8, p.sms[2].rx.count > 0, n);
    lemma_one_more(g, (rx + 3) as u8, p.sms[3].rx.count > 0, n);
}

/// Whether something asks for a transfer on line `n`.
pub open spec fn asks(b: BusState, n: int) -> bool {
    if 0 <= n < 4 {
        !b.pio[0].tx_full(n)
    } else if 4 <= n < 8 {
        b.pio[0].sms[n - 4].rx.count > 0
    } else if 8 <= n < 12 {
        !b.pio[1].tx_full(n - 8)
    } else if 12 <= n < 16 {
        b.pio[1].sms[n - 12].rx.count > 0
    } else if n == 16 {
        spi_laws::is_on(b.spi0) && b.spi0.tx.count < 8
    } else if n == 17 {
        spi_laws::is_on(b.spi0) && b.spi0.rx.count > 0
    } else if n == 18 {
        spi_laws::is_on(b.spi1) && b.spi1.tx.count < 8
    } else if n == 19 {
        spi_laws::is_on(b.spi1) && b.spi1.rx.count > 0
    } else if n == 20 {
        uart_laws::may_send(b.uart0.state) && b.uart0.state.tx.count < uart_laws::room(b.uart0.state)
    } else if n == 22 {
        uart_laws::may_send(b.uart1.state) && b.uart1.state.tx.count < uart_laws::room(b.uart1.state)
    } else if n == 32 {
        i2c_laws::is_on(b.i2c0) && b.i2c0.tx.count < 16
    } else if n == 33 {
        i2c_laws::is_on(b.i2c0) && b.i2c0.rx.count > 0
    } else if n == 34 {
        i2c_laws::is_on(b.i2c1) && b.i2c1.tx.count < 16
    } else if n == 35 {
        i2c_laws::is_on(b.i2c1) && b.i2c1.rx.count > 0
    } else if n == 36 {
        b.adc.wants_dma()
    } else {
        n == 63
    }
}

/// The lines beyond the state machines, joined one by one.
#[verifier::rlimit(40)]
proof fn lemma_joined(a: u64, on: Seq<bool>, n: int)
    requires
        on.len() == 11,
        0 <= n < 64,
    ensures
        up(
            a | line(16, on[0]) | line(17, on[1]) | line(18, on[2]) | line(19, on[3]) | line(20, on[4]) | line(
                22,
                on[5],
            ) | line(32, on[6]) | line(33, on[7]) | line(34, on[8]) | line(35, on[9]) | line(36, on[10]) | line(
                63,
                true,
            ),
            n,
        ) == (up(a, n) || (16 <= n < 20 && on[n - 16]) || (n == 20 && on[4]) || (n == 22 && on[5]) || (32 <= n < 37
            && on[n - 26]) || n == 63),
{
    let a1 = a | line(16, on[0]);
    let a2 = a1 | line(17, on[1]);
    let a3 = a2 | line(18, on[2]);
    let a4 = a3 | line(19, on[3]);
    let a5 = a4 | line(20, on[4]);
    let a6 = a5 | line(22, on[5]);
    let a7 = a6 | line(32, on[6]);
    let a8 = a7 | line(33, on[7]);
    let a9 = a8 | line(34, on[8]);
    let b0 = a9 | line(35, on[9]);
    let b1 = b0 | line(36, on[10]);
    lemma_one_more(a, 16, on[0], n);
    lemma_one_more(a1, 17, on[1], n);
    lemma_one_more(a2, 18, on[2], n);
    lemma_one_more(a3, 19, on[3], n);
    lemma_one_more(a4, 20, on[4], n);
    lemma_one_more(a5, 22, on[5], n);
    lemma_one_more(a6, 32, on[6], n);
    lemma_one_more(a7, 33, on[7], n);
    lemma_one_more(a8, 34, on[8], n);
    lemma_one_more(a9, 35, on[9], n);
    lemma_one_more(b0, 36, on[10], n);
    lemma_one_more(b1, 63, true, n);
}

/// What is asked beyond the state machines.
#[verifier::rlimit(40)]
proof fn lemma_serial_requests(b: BusState)
    ensures
        asks(b, 16) == (b.spi0.enabled() && b.spi0.tx.count < 8),
        asks(b, 17) == (b.spi0.enabled() && b.spi0.rx.count > 0),
        asks(b, 18) == (b.spi1.enabled() && b.spi1.tx.count < 8),
        asks(b, 19) == (b.spi1.enabled() && b.spi1.rx.count > 0),
        asks(b, 20) == (b.uart0.state.tx_enabled() && b.uart0.state.tx.count < b.uart0.state.capacity()),
        asks(b, 22) == (b.uart1.state.tx_enabled() && b.uart1.state.tx.count < b.uart1.state.capacity()),
        asks(b, 32) == (b.i2c0.enabled() && b.i2c0.tx.count < 16),
        asks(b, 33) == (b.i2c0.enabled() && b.i2c0.rx.count > 0),
        asks(b, 34) == (b.i2c1.enabled() && b.i2c1.tx.count < 16),
        asks(b, 35) == (b.i2c1.enabled() && b.i2c1.rx.count > 0),
        asks(b, 36) == b.adc.wants_dma(),
{
    lemma_fields(b.spi0.cr1);
    lemma_fields(b.spi1.cr1);
    lemma_fields(b.uart0.state.cr);
    lemma_fields(b.uart1.state.cr);
    lemma_fields(b.uart0.state.lcr_h);
    lemma_fields(b.uart1.state.lcr_h);
    lemma_fields(b.i2c0.enable);
    lemma_fields(b.i2c1.enable);
}

/// Each block asks for transfers on its own lines and no others: for room to
/// send while it is on and has room, for something received while it has
/// something, and on the last line always.
#[verifier::rlimit(40)]
pub proof fn law_request_lines(b: BusState, n: int)
    requires
        0 <= n < 64,
    ensures
        up(b.dreqs(), n) == asks(b, n),
{
    let p = BusState::pio_dreqs(b.pio[0], 0, 4);
    let q = BusState::pio_dreqs(b.pio[1], 8, 12);
    let on = seq![
        asks(b, 16),
        asks(b, 17),
        asks(b, 18),
        asks(b, 19),
        asks(b, 20),
        asks(b, 22),
        asks(b, 32),
        asks(b, 33),
        asks(b, 34),
        asks(b, 35),
        asks(b, 36),
    ];
    lemma_serial_requests(b);
    assert(b.dreqs() == p | q | line(16, on[0]) | line(17, on[1]) | line(18, on[2]) | line(19, on[3]) | line(20, on[4])
        | line(22, on[5]) | line(32, on[6]) | line(33, on[7]) | line(34, on[8]) | line(35, on[9]) | line(36, on[10])
        | line(63, true));
    lemma_joined(p | q, on, n);
    lemma_both(p, q, n);
    lemma_block_lines(b.pio[0], 0, 4, n);
    lemma_block_lines(b.pio[1], 8, 12, n);
}

/// The interrupt lines of the two blocks of state machines are numbers seven
/// to ten, two for each block.
#[verifier::rlimit(40)]
pub proof fn law_state_machine_lines(b: BusState, i: int)
    requires
        0 <= i < 32,
    ensures
        bit(b.pio_routed(), i) == (bit(b.irq_pending, i) || (i == 7 && b.pio[0].ints0() != 0) || (i == 8
            && b.pio[0].ints1() != 0) || (i == 9 && b.pio[1].ints0() != 0) || (i == 10 && b.pio[1].ints1() != 0)),
{
    let a = if b.pio[0].ints0() != 0 {
        b.irq_pending | (1u32 << 7u32)
    } else {
        b.irq_pending
    };
    let c = if b.pio[0].ints1() != 0 {
        a | (1u32 << 8u32)
    } else {
        a
    };
    let d = if b.pio[1].ints0() != 0 {
        c | (1u32 << 9u32)
    } else {
        c
    };
    lemma_bit_ops(b.irq_pending, 0, i as u32, 7);
    lemma_bit_ops(a, 0, i as u32, 8);
    lemma_bit_ops(c, 0, i as u32, 9);
    lemma_bit_ops(d, 0, i as u32, 10);
}

/// Both blocks of state machines run for the clocks that pass and see the
/// pins as they are; nothing else moves but the lines that they raise.
#[verifier::rlimit(40)]
pub proof fn law_state_machines_run(b: BusState, cycles: u32)
    ensures
        ({
            let after = b.after_pio_ticks(cycles);
            &&& after.pio[0] == b.pio[0].after_tick(cycles, b.gpio_in)
            &&& after.pio[1] == b.pio[1].after_tick(cycles, b.gpio_in)
            &&& after.irq_pending == (BusState { irq_pending: b.irq_pending, ..after }).pio_routed()
            &&& after.sio == b.sio
            &&& after.memory == b.memory
        }),
{
    reveal(BusState::after_pio_ticks);
}

/// Every line that is raised becomes pending at both cores, as far as the line
/// exists, and is then no longer raised.
#[verifier::rlimit(40)]
pub proof fn law_lines_become_pending(b: BusState, n: int, i: int)
    requires
        0 <= n < 2,
        0 <= i < 32,
    ensures
        bit(b.irqs_latched().nvics[n].pending, i) == (bit(b.nvics[n].pending, i) || (i < 26 && bit(b.irq_pending, i))),
        b.irqs_latched().irq_pending == 0,
{
    let lines = b.irq_pending & 0x03FF_FFFF;
    lemma_mask_bits(i as u32);
    lemma_bit_ops(b.irq_pending, 0x03FF_FFFF, i as u32, 0);
    lemma_bit_ops(b.nvics[n].pending, lines, i as u32, 0);
    reveal(BusState::irqs_latched);
}

/// In one clock of the transfer controller the lowest channel that may move
/// makes one transfer; where none may, nothing moves.
#[verifier::rlimit(40)]
pub proof fn law_one_transfer_per_clock(b: BusState, n: int)
    requires
        0 <= n <= 12,
        forall|k: int| 0 <= k < n ==> !#[trigger] b.dma.ready(k, b.dreqs()),
        n < 12 ==> b.dma.ready(n, b.dreqs()),
    ensures
        n < 12 ==> b.after_dma_tick().dma == b.after_transfer(n).dma && b.after_dma_tick().memory == b.after_transfer(
            n,
        ).memory,
        n == 12 ==> b.after_dma_tick().dma == b.dma && b.after_dma_tick().memory == b.memory,
        forall|i: int|
            #![trigger bit(b.after_dma_tick().irq_pending, i)]
            n == 12 && 0 <= i < 32 && i != 11 && i != 12 ==> bit(b.after_dma_tick().irq_pending, i) == bit(
                b.irq_pending,
                i,
            ),
{
    crate::dma::law_lowest_ready_channel_wins(b.dma, 0, b.dreqs());
    reveal(BusState::after_dma_tick);
    assert forall|i: int|
        #![trigger bit(b.after_dma_tick().irq_pending, i)]
        n == 12 && 0 <= i < 32 && i != 11 && i != 12 implies bit(b.after_dma_tick().irq_pending, i) == bit(
        b.irq_pending,
        i,
    ) by {
        crate::dma_laws::law_controller_interrupts(b.dma, 0, b.irq_pending, i);
    }
}

/// A pin shows what is driven from outside where something is, else whether
/// any block of the chip drives it high. There are thirty pins.
#[verifier::rlimit(40)]
pub proof fn law_pins(b: BusState, i: int)
    requires
        0 <= i < 32,
    ensures
        bit(b.pins_merged().gpio_in, i) == (if bit(b.external_gpio_in_mask, i) {
            bit(b.external_gpio_in_override, i)
        } else {
            i < 30 && ((bit(b.sio.gpio_out, i) && bit(b.sio.gpio_oe, i)) || (bit(b.pio[0].pad_out, i) && bit(
                b.pio[0].pad_oe,
                i,
            )) || (bit(b.pio[1].pad_out, i) && bit(b.pio[1].pad_oe, i)))
        }),
{
    let s = b.sio.gpio_out & b.sio.gpio_oe;
    let p = b.pio[0].pad_out & b.pio[0].pad_oe;
    let q = b.pio[1].pad_out & b.pio[1].pad_oe;
    let j = i as u32;
    lemma_bit_ops(b.sio.gpio_out, b.sio.gpio_oe, j, 0);
    lemma_bit_ops(b.pio[0].pad_out, b.pio[0].pad_oe, j, 0);
    lemma_bit_ops(b.pio[1].pad_out, b.pio[1].pad_oe, j, 0);
    lemma_bit_ops(s, p, j, 0);
    lemma_bit_ops(s | p, q, j, 0);
    lemma_bit_ops(s | p | q, 0x3FFF_FFFF, j, 0);
    lemma_bit_ops(b.driven_pins(), b.external_gpio_in_mask, j, 0);
    lemma_bit_ops(b.external_gpio_in_override, b.external_gpio_in_mask, j, 0);
    lemma_bit_ops(
        b.driven_pins() & !b.external_gpio_in_mask,
        b.external_gpio_in_override & b.external_gpio_in_mask,
        j,
        0,
    );
    reveal(BusState::pins_merged);
}

/// A clock of one core's system timer moves that timer and, when it fires,
/// makes the timer's exception pending at that core; the other core sees
/// nothing.
#[verifier::rlimit(40)]
pub proof fn law_system_timer_tick(b: BusState, n: int, m: int, i: int)
    requires
        0 <= n < 2,
        0 <= m < 2,
        0 <= i < 32,
    ensures
        ({
            let after = b.after_systick_tick(n);
            &&& after.systicks[n] == b.systicks[n].after_tick()
            &&& bit(after.ppb[n].icsr, i) == (bit(b.ppb[n].icsr, i) || (i == 26 && b.systicks[n].fires()))
            &&& m != n ==> after.systicks[m] == b.systicks[m] && after.ppb[m] == b.ppb[m]
        }),
{
    lemma_mask_bits(i as u32);
    lemma_bit_ops(b.ppb[n].icsr, 0x0400_0000, i as u32, 0);
    reveal(BusState::after_systick_tick);
}

/// Every clocked block runs for the clocks that pass, at the rates of the
/// clock tree, and what it then asserts reaches its own interrupt line.
#[verifier::rlimit(40)]
pub proof fn law_blocks_run(b: BusState, cycles: u32, i: int)
    requires
        0 <= i < 32,
        cycles > 0,
        b.uart0.state.irq == 20,
        b.uart1.state.irq == 21,
        b.spi0.irq == 18,
        b.spi1.irq == 19,
        b.i2c0.irq == 23,
        b.i2c1.irq == 24,
        b.adc.irq == 22,
        b.pwm.irq == 4,
    ensures
        ({
            let after = b.after_peripheral_ticks(cycles);
            let t = b.clock_tree;
            &&& after.uart0 == b.uart0.after_tick(cycles, t)
            &&& after.uart1 == b.uart1.after_tick(cycles, t)
            &&& after.spi0 == b.spi0.after_tick(cycles, t)
            &&& after.spi1 == b.spi1.after_tick(cycles, t)
            &&& after.i2c0 == b.i2c0
            &&& after.i2c1 == b.i2c1
            &&& after.adc == b.adc.after_tick(cycles, t)
            &&& after.pwm == b.pwm.run_upto(8, cycles)
            &&& bit(after.irq_pending, i) == (bit(b.irq_pending, i) || (if i == 20 {
                uart_laws::may_send(b.uart0.state) && b.uart0.state.tx.count > 0 && after.uart0.state.word_at(0x40) != 0
            } else if i == 21 {
                uart_laws::may_send(b.uart1.state) && b.uart1.state.tx.count > 0 && after.uart1.state.word_at(0x40) != 0
            } else if i == 18 {
                spi_laws::is_on(b.spi0) && after.spi0.word_at(0x1C) != 0
            } else if i == 19 {
                spi_laws::is_on(b.spi1) && after.spi1.word_at(0x1C) != 0
            } else if i == 23 {
                after.i2c0.word_at(0x2C) != 0
            } else if i == 24 {
                after.i2c1.word_at(0x2C) != 0
            } else if i == 22 {
                after.adc.word_at(0x20) != 0
            } else {
                i == 4 && after.pwm.word_at(0xB0) != 0
            }))
        }),
{
    let t = b.clock_tree;
    let j = i as u32;
    lemma_fields(b.uart0.state.cr);
    lemma_fields(b.uart1.state.cr);
    lemma_fields(b.spi0.cr1);
    lemma_fields(b.spi1.cr1);
    let i0 = b.uart0.routed_by_tick(cycles, t, b.irq_pending);
    let i1 = b.uart1.routed_by_tick(cycles, t, i0);
    let i2 = b.spi0.routed_by_tick(cycles, t, i1);
    let i3 = b.spi1.routed_by_tick(cycles, t, i2);
    let i4 = b.i2c0.routed(i3);
    let i5 = b.i2c1.routed(i4);
    let adc = b.adc.after_tick(cycles, t);
    let i6 = adc.routed(i5);
    lemma_same_irq(b.adc, cycles, t);
    lemma_same_line(b.pwm, 8, cycles);
    lemma_bit_ops(b.irq_pending, 0, j, 20);
    lemma_bit_ops(i0, 0, j, 21);
    lemma_bit_ops(i1, 0, j, 18);
    lemma_bit_ops(i2, 0, j, 19);
    lemma_bit_ops(i3, 0, j, 23);
    lemma_bit_ops(i4, 0, j, 24);
    lemma_bit_ops(i5, 0, j, 22);
    lemma_bit_ops(i6, 0, j, 4);
    reveal(BusState::after_peripheral_ticks);
}

#[verifier::rlimit(40)]
proof fn lemma_same_irq(a: crate::peripherals::adc::AdcRegs, cycles: u32, t: crate::clocks::ClockTree)
    ensures
        a.after_tick(cycles, t).irq == a.irq,
{
    let hz = if t.sys_clk_hz == 0 {
        1
    } else {
        t.sys_clk_hz as int
    };
    let total = (a.phase + (cycles * 48_000_000)) % 0x1_0000_0000_0000_0000;
    lemma_converting_irq(
        crate::peripherals::adc::AdcRegs { phase: (total % hz) as u64, ..a },
        (total / hz) as nat,
    );
}

#[verifier::rlimit(40)]
proof fn lemma_converting_irq(a: crate::peripherals::adc::AdcRegs, clocks: nat)
    ensures
        a.converting(clocks).irq == a.irq,
    decreases clocks,
{
    if let Some(left) = a.remaining {
        if left <= clocks && clocks > 0 {
            let step = if left == 0 {
                1int
            } else {
                left as int
            };
            lemma_converting_irq(a.completed().maybe_started(), (clocks - step) as nat);
        }
    }
}

#[verifier::rlimit(40)]
proof fn lemma_same_line(p: crate::peripherals::pwm::PwmRegs, n: nat, cycles: u32)
    ensures
        p.run_upto(n, cycles).irq == p.irq,
    decreases n,
{
    if n > 0 {
        lemma_same_line(p, (n - 1) as nat, cycles);
    }
}

} // verus!
