//! Reads and writes of every width.
use vstd::prelude::*;

use crate::bits::{add32, lemma_address_facts};
use crate::bus::invalidation_regions::{ROM, XIP};
use crate::bus::model::{is_data_register, lane, merged, pio_offset, replicated, touched, BusState};
use crate::bus::peripheral_dispatch::is_held_in_reset;
use crate::bus::{
    Bus, TraceEntry, ADC_BASE, DMA_BASE, I2C0_BASE, I2C1_BASE, PIO0_BASE, PIO1_BASE, SPI0_BASE, SPI1_BASE, UART0_BASE,
    UART1_BASE,
};
use crate::memory::{has_room, load_from, load_or_zero, overlaid, store_or_skip, store_to, MemoryView, Width};
use crate::peripherals::adc::FIFO;
use crate::peripherals::i2c::IC_DATA_CMD;
use crate::peripherals::spi::SSPDR;
use crate::peripherals::uart::UARTDR;

verus! {

fn take_lane(word: u32, addr: u32, w: Width) -> (out: u32)
    ensures
        out == lane(word, addr, w),
{
    (word >> (8 * (addr % 4))) & w.bits()
}

fn merge_lane(word: u32, addr: u32, w: Width, val: u32) -> (out: u32)
    ensures
        out == merged(word, addr, w, val),
{
    (word & !(w.bits() << (8 * (addr % 4)))) | ((val & w.bits()) << (8 * (addr % 4)))
}

fn replicate(val: u32, w: Width) -> (out: u32)
    ensures
        out == replicated(val, w),
{
    match w {
        Width::Byte => (val % 0x100) * 0x0101_0101,
        Width::Half => (val % 0x1_0000) * 0x0001_0001,
        Width::Word => val,
    }
}

/// Whether a register takes narrow values as they are.
fn takes_narrow_values(base: u32, offset: u32) -> (out: bool)
    ensures
        out == is_data_register(base, offset),
{
    match base {
        UART0_BASE | UART1_BASE => offset == UARTDR,
        SPI0_BASE | SPI1_BASE => offset == SSPDR,
        I2C0_BASE | I2C1_BASE => offset == IC_DATA_CMD,
        ADC_BASE => offset == FIFO,
        _ => false,
    }
}

fn pio_register(offset: u32) -> (out: u32)
    ensures
        out == pio_offset(offset),
{
    if 0x128 <= offset && offset <= 0x140 {
        offset + 0x44
    } else {
        offset
    }
}

proof fn lemma_aligned(addr: u32)
    ensures
        (addr & 0xFFFF_FFFC) >> 28 == addr >> 28,
        (addr & 0xFFFF_FFFC) % 4 == 0,
        ((addr & 0xFFFF_FFFC) & 0xFFF) % 4 == 0,
        addr >> 28 == 2 <==> 0x2000_0000 <= addr < 0x3000_0000,
        0xE000_E100 <= addr < 0xE000_E420 ==> (addr & 0xFFF) % 4 == addr % 4,
        addr & 0xFFF <= 0xFFF,
{
    lemma_address_facts(addr);
}

impl Bus {
    fn queue_invalidations(&mut self, addr: u32, w: Width)
        ensures
            final(self)@ == (BusState {
                pending_cache_invalidations: old(self)@.pending_cache_invalidations + touched(addr, w),
                ..old(self)@
            }),
    {
        let first: u32 = addr & 0xFFFF_FFFE;
        let odd = addr % 2 != 0;
        self.pending_cache_invalidations.push(first);
        if matches!(w, Width::Word) || (matches!(w, Width::Half) && odd) {
            self.pending_cache_invalidations.push(add32(first, 2));
        }
        if matches!(w, Width::Word) && odd {
            self.pending_cache_invalidations.push(add32(first, 4));
        }
    }

    fn ahb_read(&mut self, addr: u32) -> (out: u32)
        ensures
            out == old(self)@.ahb_word(addr),
            final(self)@ == old(self)@.after_ahb_read(addr),
    {
        let base: u32 = addr & 0xFFFF_C000;
        let offset: u32 = addr & 0xFFF;
        match base {
            DMA_BASE => if is_held_in_reset(self, base) {
                0
            } else {
                self.dma.read32(offset)
            },
            PIO0_BASE => self.pio[0].read32(pio_register(offset)),
            PIO1_BASE => self.pio[1].read32(pio_register(offset)),
            _ => 0,
        }
    }

    fn pio_write(&mut self, n: usize, addr: u32, w: Width, val: u32)
        requires
            n < 2,
        ensures
            final(self)@ == old(self)@.after_pio_write(n as int, addr, w, val),
    {
        let offset: u32 = addr & 0xFFF;
        let alias: u32 = (addr >> 12) & 0x3;
        if matches!(w, Width::Word) || offset == 0x010 || offset == 0x014 || offset == 0x018 || offset == 0x01C {
            self.pio[n].write32(pio_register(offset), replicate(val, w), alias);
        }
    }

    fn ahb_write(&mut self, addr: u32, w: Width, val: u32)
        ensures
            final(self)@ == old(self)@.after_ahb_write(addr, w, val),
    {
        let base: u32 = addr & 0xFFFF_C000;
        match base {
            DMA_BASE => {
                if !is_held_in_reset(self, base) {
                    self.dma.write32(addr & 0xFFF, val, (addr >> 12) & 0x3);
                }
            },
            PIO0_BASE => {
                self.pio_write(0, addr, w, val);
            },
            PIO1_BASE => {
                self.pio_write(1, addr, w, val);
            },
            _ => {},
        }
    }

    fn sio_peek(&self, addr: u32) -> (out: u32)
        ensures
            out == self@.sio_word(addr),
    {
        let offset: u32 = addr & 0xFFF;
        if offset == 0x004 {
            self.gpio_in
        } else {
            let mut copy = self.sio;
            copy.read32(offset, self.active_core)
        }
    }

    fn sio_read(&mut self, addr: u32) -> (out: u32)
        ensures
            out == old(self)@.sio_word(addr),
            final(self)@ == (BusState {
                sio: old(self)@.sio.after_read(addr & 0xFFF, old(self)@.active_core),
                ..old(self)@
            }),
    {
        let offset: u32 = addr & 0xFFF;
        if offset == 0x004 {
            self.gpio_in
        } else {
            self.sio.read32(offset, self.active_core)
        }
    }

    fn sio_write(&mut self, addr: u32, val: u32)
        ensures
            final(self)@ == old(self)@.after_sio_write(addr, val),
    {
        self.sio.write32(addr & 0xFFF, val, self.active_core);
        match self.sio.take_fifo_event() {
            Some(n) => {
                let reader: usize = if n == 0 {
                    0
                } else {
                    1
                };
                self.event_flag[reader] = true;
            },
            None => {},
        }
    }

    fn ppb_peek(&self, addr: u32) -> (out: u32)
        requires
            addr % 4 == 0,
        ensures
            out == self@.ppb_word(addr),
    {
        let n: usize = self.active_index();
        proof {
            lemma_aligned(addr);
        }
        if 0xE000_E010 <= addr && addr < 0xE000_E020 {
            let mut copy = self.systicks[n];
            copy.read32(addr & 0xFFF)
        } else if 0xE000_E100 <= addr && addr < 0xE000_E420 {
            self.nvics[n].read32(addr & 0xFFF)
        } else {
            self.ppb[n].read32(addr)
        }
    }

    fn ppb_read(&mut self, addr: u32) -> (out: u32)
        requires
            addr % 4 == 0,
        ensures
            out == old(self)@.ppb_word(addr),
            final(self)@ == old(self)@.after_ppb_read(addr),
    {
        let n: usize = self.active_index();
        proof {
            lemma_aligned(addr);
        }
        if 0xE000_E010 <= addr && addr < 0xE000_E020 {
            self.systicks[n].read32(addr & 0xFFF)
        } else if 0xE000_E100 <= addr && addr < 0xE000_E420 {
            self.nvics[n].read32(addr & 0xFFF)
        } else {
            self.ppb[n].read32(addr)
        }
    }

    fn ppb_write(&mut self, addr: u32, val: u32)
        requires
            addr % 4 == 0,
        ensures
            final(self)@ == old(self)@.after_ppb_write(addr, val),
    {
        let n: usize = self.active_index();
        proof {
            lemma_aligned(addr);
        }
        if 0xE000_E010 <= addr && addr < 0xE000_E020 {
            self.systicks[n].write32(addr & 0xFFF, val);
        } else if 0xE000_E100 <= addr && addr < 0xE000_E420 {
            self.nvics[n].write32(addr & 0xFFF, val);
        } else {
            self.ppb[n].write32(addr, val);
        }
    }

    fn xip_read(&self, addr: u32, w: Width) -> (out: u32)
        ensures
            out == self@.xip_value(addr, w),
    {
        let block: u32 = addr >> 24;
        let at: u32 = addr & 0x00FF_FFFF;
        let reg: usize = ((addr & 0xFFF) / 4) as usize;
        if 0x10 <= block && block <= 0x13 {
            load_from(&self.memory.flash, at, w)
        } else if block == 0x14 {
            let word: u32 = if reg < 64 {
                self.xip_ctrl[reg]
            } else {
                0
            };
            take_lane(word, addr, w)
        } else if block == 0x15 {
            load_from(&self.memory.xip_sram, at, w)
        } else if block == 0x18 {
            let word: u32 = if reg == 10 {
                0x6
            } else if reg < 64 {
                self.ssi[reg]
            } else {
                0
            };
            take_lane(word, addr, w)
        } else {
            0
        }
    }

    fn xip_write(&mut self, addr: u32, w: Width, val: u32)
        ensures
            final(self)@ == old(self)@.after_xip_write(addr, w, val),
    {
        let block: u32 = addr >> 24;
        let at: u32 = addr & 0x00FF_FFFF;
        let reg: usize = ((addr & 0xFFF) / 4) as usize;
        if block == 0x15 {
            store_to(&mut self.memory.xip_sram, at, w, val);
            self.queue_invalidations(addr, w);
        } else if block == 0x14 && matches!(w, Width::Word) && reg < 64 {
            self.xip_ctrl[reg] = val;
        } else if block == 0x18 && matches!(w, Width::Word) && reg < 64 {
            self.ssi[reg] = val;
        }
    }

    fn access(&mut self, addr: u32, w: Width) -> (out: u32)
        ensures
            out == old(self)@.value_at(addr, w),
            final(self)@ == old(self)@.after_access(addr, w),
    {
        reveal(BusState::value_at);
        reveal(BusState::after_access);
        proof {
            lemma_aligned(addr);
        }
        let word: u32 = addr & 0xFFFF_FFFC;
        match addr >> 28 {
            0x0 => {
                if !has_room(&self.memory.rom, addr, w) {
                    self.set_bus_fault(addr);
                    0
                } else {
                    load_from(&self.memory.rom, addr, w)
                }
            },
            0x1 => self.xip_read(addr, w),
            0x2 => {
                if !has_room(&self.memory.sram, addr - 0x2000_0000, w) {
                    self.set_bus_fault(addr);
                    0
                } else {
                    self.last_access_cycles = 1;
                    load_from(&self.memory.sram, addr - 0x2000_0000, w)
                }
            },
            0x4 => {
                let v: u32 = self.apb_read(word);
                take_lane(v, addr, w)
            },
            0x5 => {
                let v: u32 = self.ahb_read(word);
                take_lane(v, addr, w)
            },
            0xD => {
                let v: u32 = self.sio_read(word);
                take_lane(v, addr, w)
            },
            0xE => {
                let v: u32 = self.ppb_read(word);
                take_lane(v, addr, w)
            },
            _ => {
                self.set_bus_fault(addr);
                0
            },
        }
    }

    /// A write of width `w` to an APB address.
    fn apb_update(&mut self, addr: u32, w: Width, val: u32)
        requires
            addr >> 28 == 4,
        ensures
            final(self)@ == old(self)@.after_apb_update(addr, w, val),
    {
        proof {
            lemma_aligned(addr);
        }
        let word: u32 = addr & 0xFFFF_FFFC;
        if matches!(w, Width::Word) || takes_narrow_values(addr & 0xFFFF_C000, word & 0xFFF) {
            self.apb_write(addr, val);
        } else if (addr >> 12) & 0x3 == 0 {
            let merged: u32 = merge_lane(self.apb_peek(word), addr, w, val);
            self.apb_write(word, merged);
        } else {
            self.apb_write(word, (val & w.bits()) << (8 * (addr % 4)));
        }
    }

    fn update(&mut self, addr: u32, w: Width, val: u32)
        ensures
            final(self)@ == old(self)@.after_update(addr, w, val),
    {
        reveal(BusState::after_update);
        proof {
            lemma_aligned(addr);
        }
        let word: u32 = addr & 0xFFFF_FFFC;
        match addr >> 28 {
            0x0 => {},
            0x1 => {
                self.xip_write(addr, w, val);
            },
            0x2 => {
                if !has_room(&self.memory.sram, addr - 0x2000_0000, w) {
                    self.set_bus_fault(addr);
                } else {
                    store_to(&mut self.memory.sram, addr - 0x2000_0000, w, val);
                    self.queue_invalidations(addr, w);
                    self.last_access_cycles = 1;
                }
            },
            0x4 => {
                self.apb_update(addr, w, val);
            },
            0x5 => {
                self.ahb_write(addr, w, val);
            },
            0xD => {
                let v: u32 = if matches!(w, Width::Word) {
                    val
                } else {
                    merge_lane(self.sio_peek(word), addr, w, val)
                };
                self.sio_write(word, v);
            },
            0xE => {
                let v: u32 = if matches!(w, Width::Word) {
                    val
                } else {
                    merge_lane(self.ppb_peek(word), addr, w, val)
                };
                self.ppb_write(word, v);
            },
            _ => {
                self.set_bus_fault(addr);
            },
        }
    }

    fn trace(&mut self, entry: TraceEntry)
        ensures
            final(self)@ == old(self)@.traced(entry),
    {
        if self.mmio_trace_enabled {
            self.mmio_trace.push(entry);
        }
    }

    /// Reads `w` bytes at `addr`.
    pub fn read(&mut self, addr: u32, w: Width) -> (out: u32)
        ensures
            out == old(self)@.value_at(addr, w),
            final(self)@ == old(self)@.after_read(addr, w),
    {
        reveal(BusState::after_read);
        let value: u32 = self.access(addr, w);
        self.trace(TraceEntry { write: false, width: w, addr, value });
        value
    }

    /// Writes `w` bytes at `addr`.
    pub fn write(&mut self, addr: u32, w: Width, val: u32)
        ensures
            final(self)@ == old(self)@.after_write(addr, w, val),
    {
        reveal(BusState::after_write);
        self.update(addr, w, val);
        self.trace(TraceEntry { write: true, width: w, addr, value: val });
    }

    pub fn read8(&mut self, addr: u32) -> (out: u8)
        ensures
            out == (old(self)@.value_at(addr, Width::Byte) % 0x100) as u8,
            final(self)@ == old(self)@.after_read(addr, Width::Byte),
    {
        (self.read(addr, Width::Byte) % 0x100) as u8
    }

    pub fn read16(&mut self, addr: u32) -> (out: u16)
        ensures
            out == (old(self)@.value_at(addr, Width::Half) % 0x1_0000) as u16,
            final(self)@ == old(self)@.after_read(addr, Width::Half),
    {
        (self.read(addr, Width::Half) % 0x1_0000) as u16
    }

    pub fn read32(&mut self, addr: u32) -> (out: u32)
        ensures
            out == old(self)@.value_at(addr, Width::Word),
            final(self)@ == old(self)@.after_read(addr, Width::Word),
    {
        self.read(addr, Width::Word)
    }

    pub fn write8(&mut self, addr: u32, val: u8)
        ensures
            final(self)@ == old(self)@.after_write(addr, Width::Byte, val as u32),
    {
        self.write(addr, Width::Byte, val as u32);
    }

    pub fn write16(&mut self, addr: u32, val: u16)
        ensures
            final(self)@ == old(self)@.after_write(addr, Width::Half, val as u32),
    {
        self.write(addr, Width::Half, val as u32);
    }

    pub fn write32(&mut self, addr: u32, val: u32)
        ensures
            final(self)@ == old(self)@.after_write(addr, Width::Word, val),
    {
        self.write(addr, Width::Word, val);
    }

    /// The word in memory at `addr`, with no effect of any kind. Registers
    /// and unmapped addresses read as zero.
    pub fn peek32(&self, addr: u32) -> (out: u32)
        ensures
            out == self@.peeked(addr),
    {
        proof {
            lemma_aligned(addr);
        }
        let block: u32 = addr >> 24;
        let at: u32 = addr & 0x00FF_FFFF;
        if addr >> 28 == 0 {
            load_from(&self.memory.rom, addr, Width::Word)
        } else if addr >> 28 == 2 {
            load_from(&self.memory.sram, addr - 0x2000_0000, Width::Word)
        } else if 0x10 <= block && block <= 0x13 {
            load_from(&self.memory.flash, at, Width::Word)
        } else if block == 0x15 {
            load_from(&self.memory.xip_sram, at, Width::Word)
        } else {
            0
        }
    }

    /// Sets the word at `addr` in one of the two writable memories, and does
    /// nothing elsewhere.
    pub fn poke32(&mut self, addr: u32, val: u32)
        ensures
            final(self)@ == old(self)@.poked(addr, val),
    {
        proof {
            lemma_aligned(addr);
        }
        if addr >> 28 == 2 {
            store_to(&mut self.memory.sram, addr - 0x2000_0000, Width::Word, val);
            self.queue_invalidations(addr, Width::Word);
        } else if addr >> 24 == 0x15 {
            store_to(&mut self.memory.xip_sram, addr & 0x00FF_FFFF, Width::Word, val);
            self.queue_invalidations(addr, Width::Word);
        }
    }

    /// Loads a flash image; decoded instructions from flash go stale.
    pub fn load_flash(&mut self, data: &[u8])
        ensures
            final(self)@ == (BusState {
                memory: MemoryView {
                    flash: overlaid(old(self)@.memory.flash, 0, data@),
                    ..old(self)@.memory
                },
                pending_invalidation_regions: old(self)@.pending_invalidation_regions | XIP,
                ..old(self)@
            }),
    {
        self.memory.load_flash(data);
        self.pending_invalidation_regions = self.pending_invalidation_regions | XIP;
    }

    /// Loads a boot ROM image; decoded instructions from it go stale.
    pub fn load_bootrom(&mut self, data: &[u8])
        ensures
            final(self)@ == (BusState {
                memory: MemoryView { rom: overlaid(old(self)@.memory.rom, 0, data@), ..old(self)@.memory },
                pending_invalidation_regions: old(self)@.pending_invalidation_regions | ROM,
                ..old(self)@
            }),
    {
        self.memory.load_rom(data);
        self.pending_invalidation_regions = self.pending_invalidation_regions | ROM;
    }
}

impl BusState {
    pub open spec fn peeked(self, addr: u32) -> u32 {
        let block = addr >> 24;
        let at = (addr & 0x00FF_FFFF) as int;
        if addr >> 28 == 0 {
            load_or_zero(self.memory.rom, addr as int, Width::Word)
        } else if addr >> 28 == 2 {
            load_or_zero(self.memory.sram, addr - 0x2000_0000, Width::Word)
        } else if 0x10 <= block <= 0x13 {
            load_or_zero(self.memory.flash, at, Width::Word)
        } else if block == 0x15 {
            load_or_zero(self.memory.xip_sram, at, Width::Word)
        } else {
            0
        }
    }

    pub open spec fn poked(self, addr: u32, val: u32) -> BusState {
        if addr >> 28 == 2 {
            BusState {
                memory: MemoryView {
                    sram: store_or_skip(self.memory.sram, addr - 0x2000_0000, Width::Word, val),
                    ..self.memory
                },
                pending_cache_invalidations: self.pending_cache_invalidations + touched(addr, Width::Word),
                ..self
            }
        } else if addr >> 24 == 0x15 {
            BusState {
                memory: MemoryView {
                    xip_sram: store_or_skip(
                        self.memory.xip_sram,
                        (addr & 0x00FF_FFFF) as int,
                        Width::Word,
                        val,
                    ),
                    ..self.memory
                },
                pending_cache_invalidations: self.pending_cache_invalidations + touched(addr, Width::Word),
                ..self
            }
        } else {
            self
        }
    }
}

} // verus!
