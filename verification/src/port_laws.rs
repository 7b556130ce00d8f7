//! What the registers of the state-machine blocks and of the timer take
//! through every access port.
use vstd::prelude::*;

use crate::bits::{bit, lemma_bit_ops};
use crate::peripherals::laws::{lemma_fields, lemma_mask_bits, lemma_ported, ported, takes};
use crate::peripherals::timer::TimerRegs;
use crate::pio::block_laws::{lemma_controlled, lemma_one_of, lemma_sm_register, sm_register};
use crate::pio::Pio;

verus! {

/// The four configuration words of a state machine take a write bit by bit,
/// each the bits that it holds.
pub proof fn law_machine_ports(p: Pio, n: int, val: u32, alias: u32, i: int)
    requires
        0 <= n < 4,
        0 <= i < 32,
    ensures
        ({
            let sm = p.sms[n];
            &&& takes(
                sm.clkdiv,
                p.after_write(sm_register(n, 0x00), val, alias).sms[n].clkdiv,
                val,
                alias,
                i,
                i >= 8,
            )
            &&& takes(
                sm.execctrl,
                p.after_write(sm_register(n, 0x04), val, alias).sms[n].execctrl,
                val,
                alias,
                i,
                i < 5 || 7 <= i < 31,
            )
            &&& takes(
                sm.shiftctrl,
                p.after_write(sm_register(n, 0x08), val, alias).sms[n].shiftctrl,
                val,
                alias,
                i,
                i >= 16,
            )
            &&& takes(
                sm.pinctrl,
                p.after_write(sm_register(n, 0x14), val, alias).sms[n].pinctrl,
                val,
                alias,
                i,
                true,
            )
        }),
{
    let sm = p.sms[n];
    lemma_mask_bits(i as u32);
    lemma_sm_register(n, 0x00);
    lemma_sm_register(n, 0x04);
    lemma_sm_register(n, 0x08);
    lemma_sm_register(n, 0x14);
    lemma_ported(sm.clkdiv, val, alias, 0xFFFF_FF00, i);
    lemma_ported(sm.execctrl, val, alias, 0x7FFF_FF9F, i);
    lemma_ported(sm.shiftctrl, val, alias, 0xFFFF_0000, i);
    lemma_ported(sm.pinctrl, val, alias, 0, i);
}

/// The shared words of a block take a write bit by bit; its flags are dropped
/// and raised the same way through every port; the word that describes the
/// block names queues of four words, four machines and thirty-two
/// instructions.
pub proof fn law_block_ports(p: Pio, val: u32, alias: u32, i: int)
    requires
        0 <= i < 32,
    ensures
        takes(p.word_at(0x38), p.after_write(0x38, val, alias).word_at(0x38), val, alias, i, true),
        takes(p.inte0, p.after_write(0x170, val, alias).word_at(0x170), val, alias, i, i < 12),
        takes(p.intf0, p.after_write(0x174, val, alias).word_at(0x174), val, alias, i, i < 12),
        takes(p.inte1, p.after_write(0x17C, val, alias).word_at(0x17C), val, alias, i, i < 12),
        takes(p.intf1, p.after_write(0x180, val, alias).word_at(0x180), val, alias, i, i < 12),
        bit(p.after_write(0x30, val, alias).word_at(0x30), i) == (bit(p.irq, i) && !bit(val, i)),
        bit(p.after_write(0x34, val, alias).word_at(0x30), i) == (bit(p.irq, i) || (i < 8 && bit(val, i))),
        p.word_at(0x44) as int % 0x100 == 4,
        p.word_at(0x44) as int / 0x100 % 0x100 == 4,
        p.word_at(0x44) as int / 0x1_0000 == 32,
{
    lemma_mask_bits(i as u32);
    lemma_ported(p.input_sync_bypass, val, alias, 0, i);
    lemma_ported(p.inte0, val, alias, 0xFFF, i);
    lemma_ported(p.intf0, val, alias, 0xFFF, i);
    lemma_ported(p.inte1, val, alias, 0xFFF, i);
    lemma_ported(p.intf1, val, alias, 0xFFF, i);
    lemma_bit_ops(p.irq, val, i as u32, 0);
    lemma_bit_ops(val, 0xFF, i as u32, 0);
    lemma_bit_ops(p.irq, val & 0xFF, i as u32, 0);
}

/// The control word of a block shows which machines are on, and through every
/// port it switches them bit by bit; the restart bits act as they are written.
pub proof fn law_control_ports(p: Pio, n: int, val: u32, alias: u32)
    requires
        0 <= n < 4,
    ensures
        bit(p.word_at(0x00), n) == p.sms[n].enabled,
        ({
            let after = p.after_write(0x00, val, alias).sms[n];
            &&& after.enabled == ported(p.sms[n].enabled, bit(val, n), alias)
            &&& after.clock == (if bit(val, 8 + n) {
                0
            } else {
                p.sms[n].clock
            })
            &&& bit(val, 4 + n) ==> after.isr == 0 && after.isr_count == 0 && after.osr_count == 32 && after.delay == 0
            &&& after.pc == p.sms[n].pc && after.x == p.sms[n].x && after.y == p.sms[n].y
        }),
{
    lemma_one_of(p.sms[0].enabled, p.sms[1].enabled, p.sms[2].enabled, p.sms[3].enabled, 0, n as u32);
    lemma_ported(p.enables(), val, alias, 0, n);
    lemma_controlled(p, 4, crate::bits::aliased(p.enables(), val, alias), val, n);
}

/// The timer's alarms, interrupt registers and pause bits take a write bit by
/// bit; an alarm is armed by a write through any port.
pub proof fn law_timer_ports(t: TimerRegs, n: int, val: u32, alias: u32, cycle: u64, sys_hz: u32, i: int, m: int)
    requires
        0 <= n < 4,
        0 <= m < 4,
        0 <= i < 32,
    ensures
        ({
            let at = (0x10 + 4 * n) as u32;
            let other = (0x10 + 4 * m) as u32;
            let after = t.after_write(at, val, alias, cycle, sys_hz);
            &&& takes(t.word_at(at, cycle, sys_hz), after.word_at(at, cycle, sys_hz), val, alias, i, true)
            &&& bit(after.armed, i) == (bit(t.armed, i) || i == n)
            &&& after.fire_cycle[n] is Some
            &&& m != n ==> after.word_at(other, cycle, sys_hz) == t.word_at(other, cycle, sys_hz)
            &&& m != n ==> after.fire_cycle[m] == t.fire_cycle[m]
        }),
        ({
            let inte = t.after_write(0x38, val, alias, cycle, sys_hz);
            let intf = t.after_write(0x3C, val, alias, cycle, sys_hz);
            let intr = t.after_write(0x34, val, alias, cycle, sys_hz);
            let held = t.after_write(0x30, val, alias, cycle, sys_hz);
            let debug = t.after_write(0x2C, val, alias, cycle, sys_hz);
            &&& takes(t.inte, inte.inte, val, alias, i, i < 4) && inte == (TimerRegs { inte: inte.inte, ..t })
            &&& takes(t.intf, intf.intf, val, alias, i, i < 4) && intf == (TimerRegs { intf: intf.intf, ..t })
            &&& bit(intr.intr, i) == (bit(t.intr, i) && !bit(val, i)) && intr == (TimerRegs { intr: intr.intr, ..t })
            &&& held.pause == ported(t.pause, bit(val, 0), alias) && held == (TimerRegs { pause: held.pause, ..t })
            &&& takes(t.dbgpause, debug.dbgpause, val, alias, i, i < 3) && debug == (TimerRegs {
                dbgpause: debug.dbgpause,
                ..t
            })
        }),
{
    lemma_mask_bits(i as u32);
    lemma_ported(t.alarm[n], val, alias, 0, i);
    lemma_ported(t.inte, val, alias, 0xF, i);
    lemma_ported(t.intf, val, alias, 0xF, i);
    lemma_ported(t.dbgpause, val, alias, 0x7, i);
    lemma_bit_ops(t.intr, val, i as u32, 0);
    lemma_bit_ops(t.armed, 0, i as u32, n as u32);
    let was = if t.pause {
        1u32
    } else {
        0u32
    };
    lemma_mask_bits(0);
    lemma_ported(was, val, alias, 0, 0);
    lemma_fields(crate::bits::aliased(was, val, alias));
}

} // verus!
