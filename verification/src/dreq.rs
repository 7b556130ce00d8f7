//! Transfer-request lines that pace the DMA channels.
use vstd::prelude::*;

verus! {

pub const DREQ_PIO0_TX0: u8 = 0;
pub const DREQ_PIO0_RX0: u8 = 4;
pub const DREQ_PIO1_TX0: u8 = 8;
pub const DREQ_PIO1_RX0: u8 = 12;
pub const DREQ_SPI0_TX: u8 = 16;
pub const DREQ_SPI0_RX: u8 = 17;
pub const DREQ_SPI1_TX: u8 = 18;
pub const DREQ_SPI1_RX: u8 = 19;
pub const DREQ_UART0_TX: u8 = 20;
pub const DREQ_UART1_TX: u8 = 22;
pub const DREQ_UART1_RX: u8 = 23;
pub const DREQ_I2C0_TX: u8 = 32;
pub const DREQ_I2C0_RX: u8 = 33;
pub const DREQ_I2C1_TX: u8 = 34;
pub const DREQ_I2C1_RX: u8 = 35;
pub const DREQ_ADC: u8 = 36;

/// The line that always asks.
pub const DREQ_FORCE: u8 = 63;

} // verus!
