//! A dual-core RP2040 microcontroller: cores, bus, memories and peripherals,
//! each with the exact effect of every access and every step as its contract.
pub mod bits;
pub mod bus;
pub mod clocks;
pub mod clocks_laws;
pub mod coherence;
pub mod cpu;
pub mod dma;
pub mod dma_laws;
pub mod dma_register_laws;
pub mod dreq;
pub mod emulator;
pub mod emulator_laws;
pub mod fifo;
pub mod fixtures;
pub mod host;
pub mod host_laws;
pub mod irq;
pub mod memory;
pub mod peripherals;
pub mod pio;
pub mod port_laws;
pub mod quantum;
pub mod workers;

pub use crate::emulator::{Config, ConfigError, Emulator, DEFAULT_STEP_QUANTUM};
pub use crate::host::EmulatorBuilder;
pub use crate::memory::ROM_SIZE;
pub use crate::workers::{EmulatorError, ExecutionModel, WorkerName};
