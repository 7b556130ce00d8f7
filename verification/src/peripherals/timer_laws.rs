//! What the timer counts, when its alarms are due and what they do.
use vstd::arithmetic::div_mod::{lemma_fundamental_div_mod, lemma_fundamental_div_mod_converse};
use vstd::prelude::*;

use crate::bits::{bit, lemma_bit_ops};
use crate::peripherals::timer::{law_poll_fires_exactly_the_due, us_at, TimerRegs};

verus! {

/// Whole system clocks in a microsecond, at least one.
pub open spec fn clocks_per_us(sys_hz: u32) -> int {
    if sys_hz < 1_000_000 {
        1
    } else {
        sys_hz as int / 1_000_000
    }
}

/// The count that the timer shows at a cycle is the number of whole
/// microseconds since cycle zero, in two halves; a read of the latching low
/// half holds on to the high half.
pub proof fn law_time_is_counted_in_microseconds(t: TimerRegs, cycle: u64, sys_hz: u32, later: u64)
    ensures
        ({
            let us = t.word_at(0x24, cycle, sys_hz) * 0x1_0000_0000 + t.word_at(0x28, cycle, sys_hz);
            let per = clocks_per_us(sys_hz);
            &&& us * per <= cycle < (us + 1) * per
            &&& t.word_at(0x0C, cycle, sys_hz) == t.word_at(0x28, cycle, sys_hz)
            &&& t.after_read(0x0C, cycle, sys_hz).word_at(0x08, later, sys_hz) == t.word_at(0x24, cycle, sys_hz)
            &&& t.after_read(0x28, cycle, sys_hz) == t
            &&& t.after_read(0x24, cycle, sys_hz) == t
            &&& t.after_read(0x08, cycle, sys_hz) == t
        }),
{
    let per = clocks_per_us(sys_hz);
    let us = cycle as int / per;
    lemma_fundamental_div_mod(cycle as int, per);
    assert(0 <= us <= cycle) by (nonlinear_arith)
        requires
            per >= 1,
            us == cycle as int / per,
            cycle >= 0,
    ;
    assert(us * per == per * us) by (nonlinear_arith);
    assert((us + 1) * per == per * us + per) by (nonlinear_arith);
    assert(us_at(cycle, sys_hz) == us);
}

/// An alarm that is written with a target is armed and due at the first cycle,
/// from the start of the current microsecond on, at which the low word of the
/// count is that target. Only a count near the end of its range would leave
/// it.
pub proof fn law_alarm_is_due_when_the_count_matches(
    t: TimerRegs,
    n: int,
    target: u32,
    cycle: u64,
    sys_hz: u32,
    c: u64,
)
    requires
        0 <= n < 4,
        (cycle as int / clocks_per_us(sys_hz) + 0x1_0000_0000) * clocks_per_us(sys_hz) < 0x1_0000_0000_0000_0000,
    ensures
        ({
            let after = t.after_write((0x10 + 4 * n) as u32, target, 0, cycle, sys_hz);
            let start = cycle as int / clocks_per_us(sys_hz) * clocks_per_us(sys_hz);
            &&& after.fire_cycle[n] matches Some(at) && {
                &&& t.word_at(0x28, at, sys_hz) == target
                &&& start <= at
                &&& start <= c < at ==> t.word_at(0x28, c, sys_hz) != target
                &&& at as int % clocks_per_us(sys_hz) == 0
            }
            &&& bit(after.armed, n)
            &&& after.word_at((0x10 + 4 * n) as u32, cycle, sys_hz) == target
        }),
{
    let per = clocks_per_us(sys_hz);
    let now = cycle as int / per;
    let low = now % 0x1_0000_0000;
    let wait = (target - low) % 0x1_0000_0000;
    let at_us = now + wait;
    let after = t.after_write((0x10 + 4 * n) as u32, target, 0, cycle, sys_hz);
    assert(0 <= now <= cycle) by (nonlinear_arith)
        requires
            per >= 1,
            now == cycle as int / per,
            cycle >= 0,
    ;
    assert(us_at(cycle, sys_hz) == now);
    assert(0 <= at_us * per < 0x1_0000_0000_0000_0000) by (nonlinear_arith)
        requires
            per >= 1,
            0 <= now,
            0 <= wait < 0x1_0000_0000,
            at_us == now + wait,
            (now + 0x1_0000_0000) * per < 0x1_0000_0000_0000_0000,
    ;
    assert(at_us <= at_us * per) by (nonlinear_arith)
        requires
            per >= 1,
            at_us >= 0,
    ;
    let at = (at_us * per) as u64;
    assert(after.fire_cycle[n] == Some(at));
    assert(at as int / per == at_us && at as int % per == 0) by {
        lemma_fundamental_div_mod_converse(at as int, per, at_us, 0);
    }
    assert(at_us % 0x1_0000_0000 == target);
    assert(us_at(at, sys_hz) == at_us);
    assert(now * per <= at_us * per) by (nonlinear_arith)
        requires
            now <= at_us,
            per >= 1,
    ;
    if now * per <= c < at {
        let us = c as int / per;
        lemma_fundamental_div_mod(c as int, per);
        assert(us < at_us) by (nonlinear_arith)
            requires
                c < at_us * per,
                c == per * us + c as int % per,
                c as int % per >= 0,
                per >= 1,
        ;
        assert(now <= us) by (nonlinear_arith)
            requires
                now * per <= c,
                c == per * us + c as int % per,
                c as int % per < per,
                per >= 1,
        ;
        assert(us_at(c, sys_hz) == us);
        lemma_no_match_before(now, us, target as int, wait);
    }
    lemma_bit_ops(t.armed, 0, n as u32, n as u32);
}

proof fn lemma_no_match_before(now: int, us: int, target: int, wait: int)
    requires
        0 <= now <= us < now + wait,
        0 <= target < 0x1_0000_0000,
        wait == (target - now % 0x1_0000_0000) % 0x1_0000_0000,
    ensures
        us % 0x1_0000_0000 != target,
{
}

/// Writing an alarm leaves the other three as they were, and writing ones to
/// ARMED disarms exactly those.
pub proof fn law_arming_and_disarming(t: TimerRegs, n: int, k: int, val: u32, cycle: u64, sys_hz: u32)
    requires
        0 <= n < 4,
        0 <= k < 4,
    ensures
        ({
            let armed = t.after_write((0x10 + 4 * n) as u32, val, 0, cycle, sys_hz);
            let disarmed = t.after_write(0x20, val, 0, cycle, sys_hz);
            &&& k != n ==> bit(armed.armed, k) == bit(t.armed, k) && armed.fire_cycle[k] == t.fire_cycle[k]
                && armed.alarm[k] == t.alarm[k]
            &&& armed == (TimerRegs {
                armed: armed.armed,
                fire_cycle: armed.fire_cycle,
                alarm: armed.alarm,
                ..t
            })
            &&& bit(disarmed.armed, k) == (bit(t.armed, k) && !bit(val, k))
            &&& !bit(val, k) ==> disarmed.fire_cycle[k] == t.fire_cycle[k]
            &&& disarmed == (TimerRegs { armed: disarmed.armed, fire_cycle: disarmed.fire_cycle, ..t })
            &&& t.word_at(0x20, cycle, sys_hz) == t.armed
        }),
{
    lemma_bit_ops(t.armed, 0, k as u32, n as u32);
    lemma_disarmed(t, 4, val, k);
}

proof fn lemma_disarmed(t: TimerRegs, n: nat, mask: u32, k: int)
    requires
        n <= 4,
        0 <= k < 4,
    ensures
        ({
            let after = t.disarmed_upto(n, mask);
            &&& bit(after.armed, k) == (bit(t.armed, k) && !(k < n && bit(mask, k)))
            &&& !(k < n && bit(mask, k)) ==> after.fire_cycle[k] == t.fire_cycle[k]
            &&& after == (TimerRegs { armed: after.armed, fire_cycle: after.fire_cycle, ..t })
        }),
    decreases n,
{
    if n > 0 {
        lemma_disarmed(t, (n - 1) as nat, mask, k);
        let u = t.disarmed_upto((n - 1) as nat, mask);
        lemma_bit_ops(u.armed, 0, k as u32, (n - 1) as u32);
    }
}

/// Polling raises the line of an alarm exactly where the alarm is armed, its
/// cycle has come, and its interrupt is enabled or forced.
pub proof fn law_poll_raises_the_enabled(t: TimerRegs, k: int, cycle: u64)
    requires
        0 <= k < 4,
    ensures
        bit(t.fired_lines_upto(4, cycle), k) == (bit(t.armed, k) && (t.fire_cycle[k] matches Some(at) && at <= cycle)
            && (bit(t.inte, k) || bit(t.intf, k))),
{
    lemma_lines(t, 4, cycle, k);
    lemma_bit_ops(t.inte, t.intf, k as u32, 0);
}

proof fn lemma_lines(t: TimerRegs, n: nat, cycle: u64, k: int)
    requires
        n <= 4,
        0 <= k < 4,
    ensures
        bit(t.fired_lines_upto(n, cycle), k) == (k < n && t.due(k, cycle) && bit(t.inte | t.intf, k)),
    decreases n,
{
    lemma_bit_ops(0, 0, k as u32, 0);
    if n > 0 {
        let m = (n - 1) as nat;
        lemma_lines(t, m, cycle, k);
        law_poll_fires_exactly_the_due(t, m, m as int, cycle);
        lemma_bit_ops(t.fired_lines_upto(m, cycle), 0, k as u32, m as u32);
    }
}

/// The interrupt registers: writing ones takes latched interrupts down,
/// enables and forces have four bits, and the status is the enabled ones among
/// the latched and forced.
pub proof fn law_timer_interrupts(t: TimerRegs, val: u32, cycle: u64, sys_hz: u32, i: int)
    requires
        0 <= i < 32,
    ensures
        bit(t.after_write(0x34, val, 0, cycle, sys_hz).intr, i) == (bit(t.intr, i) && !bit(val, i)),
        t.after_write(0x38, val, 0, cycle, sys_hz) == (TimerRegs { inte: val % 16, ..t }),
        t.after_write(0x3C, val, 0, cycle, sys_hz) == (TimerRegs { intf: val % 16, ..t }),
        bit(t.word_at(0x40, cycle, sys_hz), i) == ((bit(t.intr, i) || bit(t.intf, i)) && bit(t.inte, i)),
        t.word_at(0x34, cycle, sys_hz) == t.intr,
        t.word_at(0x38, cycle, sys_hz) == t.inte,
        t.word_at(0x3C, cycle, sys_hz) == t.intf,
{
    let k = i as u32;
    lemma_bit_ops(t.intr, val, k, 0);
    lemma_bit_ops(t.intr, t.intf, k, 0);
    lemma_bit_ops(t.intr | t.intf, t.inte, k, 0);
    crate::pio::laws::lemma_digits(val);
}

/// Alarm `j` is armed and enabled, and due at `at`.
pub open spec fn comes_at(t: TimerRegs, j: int, at: u64) -> bool {
    0 <= j < 4 && bit(t.armed, j) && bit(t.inte, j) && t.fire_cycle[j] == Some(at)
}

/// The next cycle at which an alarm can end a sleep: some armed and enabled
/// alarm is due then, and none sooner.
pub proof fn law_next_alarm(t: TimerRegs, at: u64)
    requires
        t.fires_next_at(at),
    ensures
        exists|j: int| comes_at(t, j, at),
        forall|j: int, other: u64| comes_at(t, j, other) ==> at <= other,
{
    let n = choose|n: int| #[trigger] t.scheduled(n) && t.fire_cycle[n] == Some(at);
    assert(comes_at(t, n, at));
    assert forall|j: int, other: u64| comes_at(t, j, other) implies at <= other by {
        assert(t.scheduled(j));
    }
}

} // verus!
