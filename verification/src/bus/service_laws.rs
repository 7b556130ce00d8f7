//! What holds of transfers, interrupts, events and the passing of time.
use vstd::prelude::*;

use crate::bits::{bit, lemma_bit_ops};
use crate::bus::laws::{in_sram, law_sram_read, law_sram_read_gives_what_was_written};
use crate::bus::model::BusState;
use crate::bus::service::transfer_width;
use crate::irq::IRQ_MASK;
use crate::memory::narrowed;
use crate::peripherals::pwm::{law_slice_time_adds_up, law_slices_run_independently};
use crate::peripherals::spi::law_spi_time_adds_up;
use crate::peripherals::uart::law_uart_time_adds_up;
use crate::pio::{law_ticks_add_up, lemma_sample_rides_along, Pio};

verus! {

/// A transfer between places in SRAM copies what was there.
pub proof fn law_transfer_copies(b: BusState, n: int)
    requires
        0 <= n < 12,
        in_sram(b, b.dma.channels[n].read_addr, transfer_width(b.dma.channels[n])),
        in_sram(b, b.dma.channels[n].write_addr, transfer_width(b.dma.channels[n])),
    ensures
        ({
            let c = b.dma.channels[n];
            let w = transfer_width(c);
            b.after_transfer(n).value_at(c.write_addr, w) == b.value_at(c.read_addr, w)
        }),
{
    let c = b.dma.channels[n];
    let w = transfer_width(c);
    let val = b.value_at(c.read_addr, w);
    law_sram_read(b, c.read_addr, w);
    let read = b.after_read(c.read_addr, w);
    law_sram_read_gives_what_was_written(read, c.write_addr, w, val);
    let written = read.after_write(c.write_addr, w, val);
    law_sram_read(written, c.write_addr, w);
    law_sram_read(b.after_transfer(n), c.write_addr, w);
    assert(narrowed(val, w) == val);
}

/// A raised interrupt line is latched by both cores and then let go; what
/// they had latched before stays, and nothing else is latched.
pub proof fn law_raised_lines_reach_both_cores(b: BusState, n: int, i: int)
    requires
        0 <= n < 2,
        0 <= i < 32,
    ensures
        bit(b.irqs_latched().nvics[n].pending, i) == (bit(b.nvics[n].pending, i) || bit(
            b.irq_pending & IRQ_MASK,
            i,
        )),
        b.irqs_latched().nvics[n].enabled == b.nvics[n].enabled,
        b.irqs_latched().irq_pending == 0,
{
    reveal(BusState::irqs_latched);
    lemma_either(b.nvics[n].pending, b.irq_pending & IRQ_MASK, i as u32);
}

proof fn lemma_either(x: u32, y: u32, i: u32)
    requires
        i < 32,
    ensures
        ((x | y) >> i) & 1 == 1 <==> ((x >> i) & 1 == 1 || (y >> i) & 1 == 1),
{
    lemma_bit_ops(x, y, i, 0);
}

/// With steady pins, two ticks of the PIO blocks are one longer tick.
pub proof fn law_pio_time_adds_up(b: BusState, m: u32, n: u32, i: int)
    requires
        m + n <= u32::MAX,
        0 <= i < 2,
    ensures
        b.after_pio_ticks(m).after_pio_ticks(n).pio[i] == b.after_pio_ticks((m + n) as u32).pio[i],
{
    reveal(BusState::after_pio_ticks);
    let pins = b.gpio_in;
    let p = b.pio[i];
    let sampled = Pio { input: pins, ..p };
    lemma_sample_rides_along(p, pins, m as nat, pins);
    lemma_sample_rides_along(sampled.ran(m as nat, pins), pins, n as nat, pins);
    law_ticks_add_up(sampled, m as nat, n as nat, pins);
    assert(b.after_pio_ticks(m).pio[i] == sampled.ran(m as nat, pins));
    assert(b.after_pio_ticks(m).gpio_in == pins);
}

/// Two ticks of the serial ports and the pulse generators are one longer
/// tick: each ends in the same state, and the same slices have wrapped.
pub proof fn law_peripheral_time_adds_up(b: BusState, m: u32, n: u32, k: int)
    requires
        m + n <= u32::MAX,
        0 <= k < 8,
        b.uart0.state.tx_cycles + m + n <= u64::MAX,
        b.uart1.state.tx_cycles + m + n <= u64::MAX,
        b.spi0.tx_cycles + m + n <= u64::MAX,
        b.spi1.tx_cycles + m + n <= u64::MAX,
    ensures
        ({
            let two = b.after_peripheral_ticks(m).after_peripheral_ticks(n);
            let one = b.after_peripheral_ticks((m + n) as u32);
            &&& two.uart0 == one.uart0
            &&& two.uart1 == one.uart1
            &&& two.spi0 == one.spi0
            &&& two.spi1 == one.spi1
            &&& two.pwm.slices[k] == one.pwm.slices[k]
            &&& bit(two.pwm.intr, k) == bit(one.pwm.intr, k)
        }),
{
    let t = b.clock_tree;
    law_uart_time_adds_up(b.uart0.state, m, n, t);
    law_uart_time_adds_up(b.uart1.state, m, n, t);
    law_spi_time_adds_up(b.spi0, m, n, t);
    law_spi_time_adds_up(b.spi1, m, n, t);
    let p = b.pwm.run_upto(8, m);
    law_slices_run_independently(b.pwm, 8, k, m);
    law_slices_run_independently(p, 8, k, n);
    law_slices_run_independently(b.pwm, 8, k, (m + n) as u32);
    law_slice_time_adds_up(b.pwm.slices[k], m, n);
    reveal(BusState::after_peripheral_ticks);
}

/// An event ends a wait and is used up by it; an event that nobody waits for
/// stays latched.
pub proof fn law_events_end_waits(b: BusState, n: int)
    requires
        0 <= n < 2,
    ensures
        b.event_flag[n] ==> !b.unparked(n).wfe_waiting[n],
        b.wfe_waiting[n] && b.event_flag[n] ==> !b.unparked(n).event_flag[n],
        !b.wfe_waiting[n] ==> b.unparked(n) == b,
        b.unparked(n).event_flag[1 - n] == b.event_flag[1 - n],
        b.unparked(n).wfe_waiting[1 - n] == b.wfe_waiting[1 - n],
{
}

} // verus!
