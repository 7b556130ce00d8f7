//! Interrupt lines of the chip, as numbered at the NVIC.
use vstd::prelude::*;

verus! {

pub const IRQ_TIMER_IRQ_0: u32 = 0;
pub const IRQ_PWM_IRQ_WRAP: u32 = 4;
pub const IRQ_PIO0_IRQ_0: u32 = 7;
pub const IRQ_PIO0_IRQ_1: u32 = 8;
pub const IRQ_PIO1_IRQ_0: u32 = 9;
pub const IRQ_PIO1_IRQ_1: u32 = 10;
pub const IRQ_DMA_IRQ_0: u32 = 11;
pub const IRQ_DMA_IRQ_1: u32 = 12;
pub const IRQ_SPI0_IRQ: u32 = 18;
pub const IRQ_SPI1_IRQ: u32 = 19;
pub const IRQ_UART0_IRQ: u32 = 20;
pub const IRQ_UART1_IRQ: u32 = 21;
pub const IRQ_ADC_IRQ_FIFO: u32 = 22;
pub const IRQ_I2C0_IRQ: u32 = 23;
pub const IRQ_I2C1_IRQ: u32 = 24;

/// Number of interrupt lines that exist.
pub const IRQ_COUNT: u32 = 26;

/// One bit for each line that exists.
pub const IRQ_MASK: u32 = 0x03FF_FFFF;

} // verus!
