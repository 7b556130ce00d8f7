pub mod adc;
pub mod adc_laws;
pub mod i2c;
pub mod i2c_laws;
pub mod laws;
pub mod pwm;
pub mod pwm_laws;
pub mod spi;
pub mod spi_laws;
pub mod timer;
pub mod timer_laws;
pub mod uart;
pub mod uart_laws;
pub mod watchdog_laws;
pub mod watchdog_tick;
