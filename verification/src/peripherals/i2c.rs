//! A DesignWare I2C controller in master mode. The bus holds one device, at
//! a fixed address; commands to any other address are not acknowledged.
use vstd::prelude::*;

use crate::bits::{aliased, apply_alias, lemma_word_facts};
use crate::clocks::ClockTree;
use crate::fifo::Fifo;

verus! {

pub const IC_CON: u32 = 0x00;
pub const IC_TAR: u32 = 0x04;
pub const IC_SAR: u32 = 0x08;
pub const IC_DATA_CMD: u32 = 0x10;
pub const IC_SS_SCL_HCNT: u32 = 0x14;
pub const IC_SS_SCL_LCNT: u32 = 0x18;
pub const IC_FS_SCL_HCNT: u32 = 0x1C;
pub const IC_FS_SCL_LCNT: u32 = 0x20;
pub const IC_INTR_STAT: u32 = 0x2C;
pub const IC_INTR_MASK: u32 = 0x30;
pub const IC_RAW_INTR_STAT: u32 = 0x34;
pub const IC_RX_TL: u32 = 0x38;
pub const IC_TX_TL: u32 = 0x3C;
pub const IC_CLR_INTR: u32 = 0x40;
pub const IC_CLR_RX_UNDER: u32 = 0x44;
pub const IC_CLR_RX_OVER: u32 = 0x48;
pub const IC_CLR_TX_OVER: u32 = 0x4C;
pub const IC_CLR_RD_REQ: u32 = 0x50;
pub const IC_CLR_TX_ABRT: u32 = 0x54;
pub const IC_CLR_RX_DONE: u32 = 0x58;
pub const IC_CLR_ACTIVITY: u32 = 0x5C;
pub const IC_CLR_STOP_DET: u32 = 0x60;
pub const IC_CLR_START_DET: u32 = 0x64;
pub const IC_CLR_GEN_CALL: u32 = 0x68;
pub const IC_ENABLE: u32 = 0x6C;
pub const IC_STATUS: u32 = 0x70;
pub const IC_TXFLR: u32 = 0x74;
pub const IC_RXFLR: u32 = 0x78;
pub const IC_SDA_HOLD: u32 = 0x7C;
pub const IC_TX_ABRT_SOURCE: u32 = 0x80;
pub const IC_ENABLE_STATUS: u32 = 0x9C;
pub const IC_FS_SPKLEN: u32 = 0xA0;

pub const INT_RX_UNDER: u32 = 0x001;
pub const INT_RX_OVER: u32 = 0x002;
pub const INT_RX_FULL: u32 = 0x004;
pub const INT_TX_OVER: u32 = 0x008;
pub const INT_TX_EMPTY: u32 = 0x010;
pub const INT_RD_REQ: u32 = 0x020;
pub const INT_TX_ABRT: u32 = 0x040;
pub const INT_RX_DONE: u32 = 0x080;
pub const INT_ACTIVITY: u32 = 0x100;
pub const INT_STOP_DET: u32 = 0x200;
pub const INT_START_DET: u32 = 0x400;
pub const INT_GEN_CALL: u32 = 0x800;

/// Read flag and stop flag of a command word.
pub const CMD_READ: u32 = 0x100;
pub const CMD_STOP: u32 = 0x200;

/// Abort source: the seven-bit address was not acknowledged.
pub const ABRT_7B_ADDR_NOACK: u32 = 0x1;

/// The address that acknowledges.
pub const ACK_ADDRESS: u32 = 0x3C;

/// What every read command receives: an undriven data line.
pub const IDLE_BYTE: u32 = 0xFF;

pub const I2C_FIFO_DEPTH: u8 = 16;

#[derive(Clone, Copy, Debug, PartialEq, Eq)]
pub struct I2cRegs {
    pub con: u32,
    pub tar: u32,
    pub sar: u32,
    pub ss_scl_hcnt: u32,
    pub ss_scl_lcnt: u32,
    pub fs_scl_hcnt: u32,
    pub fs_scl_lcnt: u32,
    pub intr_mask: u32,
    pub raw_intr: u32,
    pub rx_tl: u32,
    pub tx_tl: u32,
    pub enable: u32,
    pub sda_hold: u32,
    pub tx_abrt_source: u32,
    pub fs_spklen: u32,
    pub tx: Fifo,
    pub rx: Fifo,
    pub irq: u32,
}

/// The interrupt that a read at `offset` clears, or zero.
pub open spec fn cleared_by(offset: u32) -> u32 {
    if offset == IC_CLR_RX_UNDER {
        INT_RX_UNDER
    } else if offset == IC_CLR_RX_OVER {
        INT_RX_OVER
    } else if offset == IC_CLR_TX_OVER {
        INT_TX_OVER
    } else if offset == IC_CLR_RD_REQ {
        INT_RD_REQ
    } else if offset == IC_CLR_TX_ABRT {
        INT_TX_ABRT
    } else if offset == IC_CLR_RX_DONE {
        INT_RX_DONE
    } else if offset == IC_CLR_ACTIVITY {
        INT_ACTIVITY
    } else if offset == IC_CLR_STOP_DET {
        INT_STOP_DET
    } else if offset == IC_CLR_START_DET {
        INT_START_DET
    } else if offset == IC_CLR_GEN_CALL {
        INT_GEN_CALL
    } else if offset == IC_CLR_INTR {
        0xFFFF_FFFF
    } else {
        0
    }
}

fn clear_mask(offset: u32) -> (out: u32)
    ensures
        out == cleared_by(offset),
{
    match offset {
        IC_CLR_RX_UNDER => INT_RX_UNDER,
        IC_CLR_RX_OVER => INT_RX_OVER,
        IC_CLR_TX_OVER => INT_TX_OVER,
        IC_CLR_RD_REQ => INT_RD_REQ,
        IC_CLR_TX_ABRT => INT_TX_ABRT,
        IC_CLR_RX_DONE => INT_RX_DONE,
        IC_CLR_ACTIVITY => INT_ACTIVITY,
        IC_CLR_STOP_DET => INT_STOP_DET,
        IC_CLR_START_DET => INT_START_DET,
        IC_CLR_GEN_CALL => INT_GEN_CALL,
        IC_CLR_INTR => 0xFFFF_FFFF,
        _ => 0,
    }
}

impl I2cRegs {
    pub open spec fn at_reset(irq: u32) -> I2cRegs {
        I2cRegs {
            con: 0x65,
            tar: 0x55,
            sar: 0x55,
            ss_scl_hcnt: 0x28,
            ss_scl_lcnt: 0x2F,
            fs_scl_hcnt: 0x06,
            fs_scl_lcnt: 0x0D,
            intr_mask: 0x8FF,
            raw_intr: 0,
            rx_tl: 0,
            tx_tl: 0,
            enable: 0,
            sda_hold: 0x1,
            tx_abrt_source: 0,
            fs_spklen: 0x7,
            tx: Fifo::empty(),
            rx: Fifo::empty(),
            irq,
        }
    }

    pub open spec fn enabled(self) -> bool {
        self.enable & 1 != 0
    }

    pub open spec fn status(self) -> u32 {
        (if self.raw_intr & INT_ACTIVITY != 0 { 0x1u32 } else { 0u32 })
            | (if self.tx.count < I2C_FIFO_DEPTH { 0x2u32 } else { 0u32 })
            | (if self.tx.count == 0 { 0x4u32 } else { 0u32 })
            | (if self.rx.count > 0 { 0x8u32 } else { 0u32 })
            | (if self.rx.count >= I2C_FIFO_DEPTH { 0x10u32 } else { 0u32 })
    }

    /// A read command: one idle byte arrives, or the queue overruns.
    pub open spec fn after_read_command(self) -> I2cRegs {
        let next = if self.rx.count < I2C_FIFO_DEPTH {
            I2cRegs { rx: self.rx.pushed(IDLE_BYTE, I2C_FIFO_DEPTH), ..self }
        } else {
            I2cRegs { raw_intr: self.raw_intr | INT_RX_OVER, ..self }
        };
        if next.rx.count > next.rx_tl {
            I2cRegs { raw_intr: next.raw_intr | INT_RX_FULL, ..next }
        } else {
            next
        }
    }

    /// A write command: its byte is queued, or the queue overruns.
    pub open spec fn after_write_command(self, cmd: u32) -> I2cRegs {
        let next = if self.tx.count < I2C_FIFO_DEPTH {
            I2cRegs { tx: self.tx.pushed(cmd & 0xFF, I2C_FIFO_DEPTH), ..self }
        } else {
            I2cRegs { raw_intr: self.raw_intr | INT_TX_OVER, ..self }
        };
        if next.tx.count <= next.tx_tl {
            I2cRegs { raw_intr: next.raw_intr | INT_TX_EMPTY, ..next }
        } else {
            next
        }
    }

    /// One command word. Every command to an enabled controller shows
    /// activity and a start condition; one to a silent address aborts and
    /// stops.
    pub open spec fn after_command(self, cmd: u32) -> I2cRegs {
        if !self.enabled() {
            self
        } else {
            let started = I2cRegs { raw_intr: self.raw_intr | (INT_ACTIVITY | INT_START_DET), ..self };
            if self.tar & 0x7F != ACK_ADDRESS {
                I2cRegs {
                    raw_intr: started.raw_intr | (INT_TX_ABRT | INT_STOP_DET),
                    tx_abrt_source: self.tx_abrt_source | ABRT_7B_ADDR_NOACK,
                    ..started
                }
            } else {
                let done = if cmd & CMD_READ != 0 {
                    started.after_read_command()
                } else {
                    started.after_write_command(cmd)
                };
                if cmd & CMD_STOP != 0 {
                    I2cRegs { raw_intr: done.raw_intr | INT_STOP_DET, ..done }
                } else {
                    done
                }
            }
        }
    }

    pub open spec fn routed(self, irqs: u32) -> u32 {
        if self.raw_intr & self.intr_mask != 0 && self.irq < 32 {
            irqs | (1u32 << self.irq)
        } else {
            irqs
        }
    }

    pub open spec fn word_at(self, offset: u32) -> u32 {
        if offset == IC_CON {
            self.con
        } else if offset == IC_TAR {
            self.tar
        } else if offset == IC_SAR {
            self.sar
        } else if offset == IC_DATA_CMD {
            self.rx.front()
        } else if offset == IC_SS_SCL_HCNT {
            self.ss_scl_hcnt
        } else if offset == IC_SS_SCL_LCNT {
            self.ss_scl_lcnt
        } else if offset == IC_FS_SCL_HCNT {
            self.fs_scl_hcnt
        } else if offset == IC_FS_SCL_LCNT {
            self.fs_scl_lcnt
        } else if offset == IC_INTR_STAT {
            self.raw_intr & self.intr_mask
        } else if offset == IC_INTR_MASK {
            self.intr_mask
        } else if offset == IC_RAW_INTR_STAT {
            self.raw_intr
        } else if offset == IC_RX_TL {
            self.rx_tl
        } else if offset == IC_TX_TL {
            self.tx_tl
        } else if offset == IC_ENABLE {
            self.enable
        } else if offset == IC_STATUS {
            self.status()
        } else if offset == IC_TXFLR {
            self.tx.count as u32
        } else if offset == IC_RXFLR {
            self.rx.count as u32
        } else if offset == IC_SDA_HOLD {
            self.sda_hold
        } else if offset == IC_TX_ABRT_SOURCE {
            self.tx_abrt_source
        } else if offset == IC_ENABLE_STATUS {
            self.enable & 1
        } else if offset == IC_FS_SPKLEN {
            self.fs_spklen
        } else if self.raw_intr & cleared_by(offset) != 0 {
            1
        } else {
            0
        }
    }

    /// Reading the data register takes a received byte; reading a clear
    /// register clears its interrupt.
    pub open spec fn after_read(self, offset: u32) -> I2cRegs {
        if offset == IC_DATA_CMD {
            if self.rx.count == 0 {
                I2cRegs { raw_intr: self.raw_intr | INT_RX_UNDER, ..self }
            } else {
                let next = I2cRegs { rx: self.rx.dropped(1), ..self };
                if next.rx.count <= next.rx_tl {
                    I2cRegs { raw_intr: next.raw_intr & !INT_RX_FULL, ..next }
                } else {
                    next
                }
            }
        } else if offset == IC_CLR_TX_ABRT || offset == IC_CLR_INTR {
            I2cRegs { raw_intr: self.raw_intr & !cleared_by(offset), tx_abrt_source: 0, ..self }
        } else {
            I2cRegs { raw_intr: self.raw_intr & !cleared_by(offset), ..self }
        }
    }

    pub open spec fn after_write(self, offset: u32, val: u32, alias: u32) -> I2cRegs {
        if offset == IC_CON {
            I2cRegs { con: aliased(self.con, val, alias) & 0x3FF, ..self }
        } else if offset == IC_TAR {
            if self.enabled() {
                self
            } else {
                I2cRegs { tar: aliased(self.tar, val, alias) & 0xFFF, ..self }
            }
        } else if offset == IC_SAR {
            I2cRegs { sar: aliased(self.sar, val, alias) & 0x3FF, ..self }
        } else if offset == IC_DATA_CMD {
            self.after_command(val)
        } else if offset == IC_SS_SCL_HCNT {
            I2cRegs { ss_scl_hcnt: aliased(self.ss_scl_hcnt, val, alias) & 0xFFFF, ..self }
        } else if offset == IC_SS_SCL_LCNT {
            I2cRegs { ss_scl_lcnt: aliased(self.ss_scl_lcnt, val, alias) & 0xFFFF, ..self }
        } else if offset == IC_FS_SCL_HCNT {
            I2cRegs { fs_scl_hcnt: aliased(self.fs_scl_hcnt, val, alias) & 0xFFFF, ..self }
        } else if offset == IC_FS_SCL_LCNT {
            I2cRegs { fs_scl_lcnt: aliased(self.fs_scl_lcnt, val, alias) & 0xFFFF, ..self }
        } else if offset == IC_INTR_MASK {
            I2cRegs { intr_mask: aliased(self.intr_mask, val, alias) & 0x1FFF, ..self }
        } else if offset == IC_RX_TL {
            I2cRegs { rx_tl: aliased(self.rx_tl, val, alias) & 0xFF, ..self }
        } else if offset == IC_TX_TL {
            I2cRegs { tx_tl: aliased(self.tx_tl, val, alias) & 0xFF, ..self }
        } else if offset == IC_ENABLE {
            let next = I2cRegs { enable: aliased(self.enable, val, alias) & 0x7, ..self };
            if next.enabled() {
                next
            } else {
                I2cRegs { tx: Fifo::empty(), rx: Fifo::empty(), ..next }
            }
        } else if offset == IC_SDA_HOLD {
            I2cRegs { sda_hold: aliased(self.sda_hold, val, alias) & 0xFFFF, ..self }
        } else if offset == IC_FS_SPKLEN {
            I2cRegs { fs_spklen: aliased(self.fs_spklen, val, alias) & 0xFF, ..self }
        } else {
            self
        }
    }

    pub fn new(irq: u32) -> (i: I2cRegs)
        ensures
            i == I2cRegs::at_reset(irq),
    {
        I2cRegs {
            con: 0x65,
            tar: 0x55,
            sar: 0x55,
            ss_scl_hcnt: 0x28,
            ss_scl_lcnt: 0x2F,
            fs_scl_hcnt: 0x06,
            fs_scl_lcnt: 0x0D,
            intr_mask: 0x8FF,
            raw_intr: 0,
            rx_tl: 0,
            tx_tl: 0,
            enable: 0,
            sda_hold: 0x1,
            tx_abrt_source: 0,
            fs_spklen: 0x7,
            tx: Fifo::new(),
            rx: Fifo::new(),
            irq,
        }
    }

    pub fn is_idle(&self) -> (out: bool)
        ensures
            out == (self.tx.count == 0 && self.rx.count == 0 && self.raw_intr == 0),
    {
        self.tx.is_empty() && self.rx.is_empty() && self.raw_intr == 0
    }

    pub fn tx_dreq(&self) -> (out: bool)
        ensures
            out == (self.enabled() && self.tx.count < I2C_FIFO_DEPTH),
    {
        self.enable & 1 != 0 && self.tx.count < I2C_FIFO_DEPTH
    }

    pub fn rx_dreq(&self) -> (out: bool)
        ensures
            out == (self.enabled() && self.rx.count > 0),
    {
        self.enable & 1 != 0 && self.rx.count > 0
    }

    fn route_irq(&self, irqs: &mut u32)
        ensures
            *final(irqs) == self.routed(*old(irqs)),
    {
        if self.raw_intr & self.intr_mask != 0 && self.irq < 32 {
            *irqs = *irqs | (1u32 << self.irq);
        }
    }

    fn command(&mut self, cmd: u32)
        ensures
            *final(self) == old(self).after_command(cmd),
    {
        if self.enable & 1 == 0 {
            return;
        }
        self.raw_intr = self.raw_intr | (INT_ACTIVITY | INT_START_DET);
        if self.tar & 0x7F != ACK_ADDRESS {
            self.raw_intr = self.raw_intr | (INT_TX_ABRT | INT_STOP_DET);
            self.tx_abrt_source = self.tx_abrt_source | ABRT_7B_ADDR_NOACK;
            return;
        }
        if cmd & CMD_READ != 0 {
            if self.rx.count < I2C_FIFO_DEPTH {
                self.rx.push(IDLE_BYTE, I2C_FIFO_DEPTH);
            } else {
                self.raw_intr = self.raw_intr | INT_RX_OVER;
            }
            if self.rx.count as u32 > self.rx_tl {
                self.raw_intr = self.raw_intr | INT_RX_FULL;
            }
        } else {
            if self.tx.count < I2C_FIFO_DEPTH {
                self.tx.push(cmd & 0xFF, I2C_FIFO_DEPTH);
            } else {
                self.raw_intr = self.raw_intr | INT_TX_OVER;
            }
            if self.tx.count as u32 <= self.tx_tl {
                self.raw_intr = self.raw_intr | INT_TX_EMPTY;
            }
        }
        if cmd & CMD_STOP != 0 {
            self.raw_intr = self.raw_intr | INT_STOP_DET;
        }
    }

    fn status_word(&self) -> (out: u32)
        ensures
            out == self.status(),
    {
        (if self.raw_intr & INT_ACTIVITY != 0 { 0x1u32 } else { 0u32 })
            | (if self.tx.count < I2C_FIFO_DEPTH { 0x2u32 } else { 0u32 })
            | (if self.tx.count == 0 { 0x4u32 } else { 0u32 })
            | (if self.rx.count > 0 { 0x8u32 } else { 0u32 })
            | (if self.rx.count >= I2C_FIFO_DEPTH { 0x10u32 } else { 0u32 })
    }

    fn peek(&self, offset: u32) -> (out: u32)
        ensures
            out == self.word_at(offset),
    {
        match offset {
            IC_CON => self.con,
            IC_TAR => self.tar,
            IC_SAR => self.sar,
            IC_DATA_CMD => self.rx.peek(),
            IC_SS_SCL_HCNT => self.ss_scl_hcnt,
            IC_SS_SCL_LCNT => self.ss_scl_lcnt,
            IC_FS_SCL_HCNT => self.fs_scl_hcnt,
            IC_FS_SCL_LCNT => self.fs_scl_lcnt,
            IC_INTR_STAT => self.raw_intr & self.intr_mask,
            IC_INTR_MASK => self.intr_mask,
            IC_RAW_INTR_STAT => self.raw_intr,
            IC_RX_TL => self.rx_tl,
            IC_TX_TL => self.tx_tl,
            IC_ENABLE => self.enable,
            IC_STATUS => self.status_word(),
            IC_TXFLR => self.tx.count as u32,
            IC_RXFLR => self.rx.count as u32,
            IC_SDA_HOLD => self.sda_hold,
            IC_TX_ABRT_SOURCE => self.tx_abrt_source,
            IC_ENABLE_STATUS => self.enable & 1,
            IC_FS_SPKLEN => self.fs_spklen,
            _ => if self.raw_intr & clear_mask(offset) != 0 {
                1
            } else {
                0
            },
        }
    }

    pub fn read32(&mut self, offset: u32) -> (out: u32)
        ensures
            out == old(self).word_at(offset),
            *final(self) == old(self).after_read(offset),
    {
        let out: u32 = self.peek(offset);
        if offset == IC_DATA_CMD {
            if self.rx.is_empty() {
                self.raw_intr = self.raw_intr | INT_RX_UNDER;
            } else {
                self.rx.drop_front(1);
                if self.rx.count as u32 <= self.rx_tl {
                    self.raw_intr = self.raw_intr & !INT_RX_FULL;
                }
            }
        } else {
            self.raw_intr = self.raw_intr & !clear_mask(offset);
            if offset == IC_CLR_TX_ABRT || offset == IC_CLR_INTR {
                self.tx_abrt_source = 0;
            }
        }
        out
    }

    pub fn read8(&mut self, offset: u32) -> (out: u8)
        ensures
            out == (old(self).word_at(offset) % 0x100) as u8,
            *final(self) == old(self).after_read(offset),
    {
        (self.read32(offset) % 0x100) as u8
    }

    pub fn write32(&mut self, offset: u32, val: u32, alias: u32, irqs: &mut u32)
        ensures
            *final(self) == old(self).after_write(offset, val, alias),
            *final(irqs) == final(self).routed(*old(irqs)),
    {
        match offset {
            IC_CON => {
                self.con = apply_alias(self.con, val, alias) & 0x3FF;
            },
            IC_TAR => {
                if self.enable & 1 == 0 {
                    self.tar = apply_alias(self.tar, val, alias) & 0xFFF;
                }
            },
            IC_SAR => {
                self.sar = apply_alias(self.sar, val, alias) & 0x3FF;
            },
            IC_DATA_CMD => {
                self.command(val);
            },
            IC_SS_SCL_HCNT => {
                self.ss_scl_hcnt = apply_alias(self.ss_scl_hcnt, val, alias) & 0xFFFF;
            },
            IC_SS_SCL_LCNT => {
                self.ss_scl_lcnt = apply_alias(self.ss_scl_lcnt, val, alias) & 0xFFFF;
            },
            IC_FS_SCL_HCNT => {
                self.fs_scl_hcnt = apply_alias(self.fs_scl_hcnt, val, alias) & 0xFFFF;
            },
            IC_FS_SCL_LCNT => {
                self.fs_scl_lcnt = apply_alias(self.fs_scl_lcnt, val, alias) & 0xFFFF;
            },
            IC_INTR_MASK => {
                self.intr_mask = apply_alias(self.intr_mask, val, alias) & 0x1FFF;
            },
            IC_RX_TL => {
                self.rx_tl = apply_alias(self.rx_tl, val, alias) & 0xFF;
            },
            IC_TX_TL => {
                self.tx_tl = apply_alias(self.tx_tl, val, alias) & 0xFF;
            },
            IC_ENABLE => {
                self.enable = apply_alias(self.enable, val, alias) & 0x7;
                if self.enable & 1 == 0 {
                    self.tx = Fifo::new();
                    self.rx = Fifo::new();
                }
            },
            IC_SDA_HOLD => {
                self.sda_hold = apply_alias(self.sda_hold, val, alias) & 0xFFFF;
            },
            IC_FS_SPKLEN => {
                self.fs_spklen = apply_alias(self.fs_spklen, val, alias) & 0xFF;
            },
            _ => {},
        }
        self.route_irq(irqs);
    }

    /// A byte write reaches the register as a word.
    pub fn write8(&mut self, offset: u32, val: u8, irqs: &mut u32)
        ensures
            *final(self) == old(self).after_write(offset, val as u32, 0),
            *final(irqs) == final(self).routed(*old(irqs)),
    {
        self.write32(offset, val as u32, 0, irqs);
    }

    /// Commands complete at once, so time only keeps the interrupt asserted.
    pub fn tick(&self, cycles: u32, tree: &ClockTree, irqs: &mut u32)
        ensures
            *final(irqs) == self.routed(*old(irqs)),
    {
        self.route_irq(irqs);
    }
}

impl Default for I2cRegs {
    fn default() -> (i: I2cRegs)
        ensures
            i == I2cRegs::at_reset(crate::irq::IRQ_I2C0_IRQ),
    {
        I2cRegs::new(crate::irq::IRQ_I2C0_IRQ)
    }
}

/// A command to a silent address latches the abort interrupt, one to the
/// device that answers leaves it as it was, and reading the abort-clear
/// register drops it.
pub proof fn law_abort_only_without_acknowledge(i: I2cRegs, cmd: u32)
    requires
        i.enabled(),
    ensures
        i.tar & 0x7F != ACK_ADDRESS ==> i.after_command(cmd).raw_intr & INT_TX_ABRT != 0,
        i.tar & 0x7F == ACK_ADDRESS ==> i.after_command(cmd).raw_intr & INT_TX_ABRT == i.raw_intr & INT_TX_ABRT,
        i.after_command(cmd).after_read(IC_CLR_TX_ABRT).raw_intr & INT_TX_ABRT == 0,
{
    let r = i.raw_intr;
    let s = r | (0x100u32 | 0x400u32);
    lemma_interrupt_bits(r);
    lemma_interrupt_bits(s);
    let done = if cmd & CMD_READ != 0 {
        I2cRegs { raw_intr: s, ..i }.after_read_command()
    } else {
        I2cRegs { raw_intr: s, ..i }.after_write_command(cmd)
    };
    lemma_interrupt_bits(s | 0x002);
    lemma_interrupt_bits(s | 0x008);
    lemma_interrupt_bits(done.raw_intr);
    lemma_interrupt_bits(i.after_command(cmd).raw_intr);
}

proof fn lemma_interrupt_bits(r: u32)
    ensures
        (r | (0x100u32 | 0x400u32)) & 0x40 == r & 0x40,
        (r | (0x40u32 | 0x200u32)) & 0x40 != 0,
        (r | 0x002) & 0x40 == r & 0x40,
        (r | 0x004) & 0x40 == r & 0x40,
        (r | 0x008) & 0x40 == r & 0x40,
        (r | 0x010) & 0x40 == r & 0x40,
        (r | 0x200) & 0x40 == r & 0x40,
        (r & !0x40u32) & 0x40 == 0,
{
    lemma_word_facts(r, 0, 0);
}

} // verus!
