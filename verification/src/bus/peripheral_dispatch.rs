//! Which reset line holds which peripheral.
use vstd::prelude::*;

use crate::bus::{
    Bus, ADC_BASE, DMA_BASE, I2C0_BASE, I2C1_BASE, PWM_BASE, SPI0_BASE, SPI1_BASE, TIMER_BASE, UART0_BASE,
    UART1_BASE, WATCHDOG_BASE,
};

verus! {

pub const RESET_ADC: u32 = 0;
pub const RESET_DMA: u32 = 2;
pub const RESET_I2C0: u32 = 3;
pub const RESET_I2C1: u32 = 4;
pub const RESET_PWM: u32 = 14;
pub const RESET_SPI0: u32 = 16;
pub const RESET_SPI1: u32 = 17;
pub const RESET_TIMER: u32 = 21;
pub const RESET_UART0: u32 = 22;
pub const RESET_UART1: u32 = 23;
pub const RESET_WATCHDOG: u32 = 24;

/// The reset lines that exist.
pub const RESET_MASK: u32 = 0x01FF_FFFF;

/// The line that gates the peripheral at `base`, as a mask; zero where none
/// does.
pub open spec fn reset_line(base: u32) -> u32 {
    if base == ADC_BASE {
        1u32 << RESET_ADC
    } else if base == DMA_BASE {
        1u32 << RESET_DMA
    } else if base == I2C0_BASE {
        1u32 << RESET_I2C0
    } else if base == I2C1_BASE {
        1u32 << RESET_I2C1
    } else if base == PWM_BASE {
        1u32 << RESET_PWM
    } else if base == SPI0_BASE {
        1u32 << RESET_SPI0
    } else if base == SPI1_BASE {
        1u32 << RESET_SPI1
    } else if base == TIMER_BASE {
        1u32 << RESET_TIMER
    } else if base == UART0_BASE {
        1u32 << RESET_UART0
    } else if base == UART1_BASE {
        1u32 << RESET_UART1
    } else if base == WATCHDOG_BASE {
        1u32 << RESET_WATCHDOG
    } else {
        0
    }
}

pub fn reset_mask(base: u32) -> (out: u32)
    ensures
        out == reset_line(base),
{
    match base {
        ADC_BASE => 1u32 << RESET_ADC,
        DMA_BASE => 1u32 << RESET_DMA,
        I2C0_BASE => 1u32 << RESET_I2C0,
        I2C1_BASE => 1u32 << RESET_I2C1,
        PWM_BASE => 1u32 << RESET_PWM,
        SPI0_BASE => 1u32 << RESET_SPI0,
        SPI1_BASE => 1u32 << RESET_SPI1,
        TIMER_BASE => 1u32 << RESET_TIMER,
        UART0_BASE => 1u32 << RESET_UART0,
        UART1_BASE => 1u32 << RESET_UART1,
        WATCHDOG_BASE => 1u32 << RESET_WATCHDOG,
        _ => 0,
    }
}

/// Whether the peripheral at `base` is held in reset.
pub fn is_held_in_reset(bus: &Bus, base: u32) -> (out: bool)
    ensures
        out == bus@.held(base),
{
    bus.resets & reset_mask(base) != 0
}

} // verus!
