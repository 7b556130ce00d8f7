# rp2040_emu

A dual-core RP2040 microcontroller in Verus: two Cortex-M0+ cores, the bus
fabric, boot ROM, flash and SRAM, and the on-chip peripherals. Every access and
every step has its exact effect as a contract, stated over a mathematical value
of the chip, and proved.

## Layout

- `src/bits.rs`, `src/fifo.rs`, `src/memory.rs`: words, queues, memories.
- `src/cpu/`: registers, arithmetic, the 16-bit and 32-bit instructions,
  exceptions, the interrupt controller, SysTick, the decode cache, one step.
  Laws: `laws.rs` (entry and return), `stack_laws.rs` (push and pop), `cost.rs`
  (cycles), `coherence.rs` and `trust.rs` (the decode cache).
- `src/bus/`: the address map (`model.rs` says what each access does), the
  system control block, the single-cycle block, resets, the passing of time.
  Laws: `laws.rs`, `service_laws.rs`.
- `src/peripherals/`, `src/pio/`, `src/dma.rs`, `src/clocks.rs`: the devices.
- `src/emulator.rs`, `src/host.rs`, `src/workers.rs`: the whole chip, what a host
  does with it, and how its workers fail. Laws: `quantum.rs`, `coherence.rs`, `host_laws.rs`.
- `src/fixtures/`: ready-made set-ups for experiments.
- `tests/`: concrete runs.
- `app/`: the access trace written out as text, quanta run on a thread.

## Reading the contracts

`Bus`, `Emulator` and the memories have a view (`BusState`, `EmulatorState`,
`MemoryView`). A method `f` that changes its receiver says that the new view is
the old one after a transformer of that view: `after_write`, `stepped`,
`entered`. The functions whose names begin with `law_` state what these
transformers promise together.
