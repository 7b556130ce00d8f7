//! The microsecond timer with its four alarms. The count is never stored: it
//! is derived from the cycle at which a register is accessed.
use vstd::array::{spec_array_fill_for_copy_type, spec_array_update};
use vstd::prelude::*;

use crate::bits::{aliased, apply_alias, bit, lemma_set_clear_bit};

verus! {

pub const TIMEHW_OFFSET: u32 = 0x00;
pub const TIMELW_OFFSET: u32 = 0x04;
pub const TIMEHR_OFFSET: u32 = 0x08;
pub const TIMELR_OFFSET: u32 = 0x0C;
pub const ALARM0_OFFSET: u32 = 0x10;
pub const ARMED_OFFSET: u32 = 0x20;
pub const TIMERAWH_OFFSET: u32 = 0x24;
pub const TIMERAWL_OFFSET: u32 = 0x28;
pub const DBGPAUSE_OFFSET: u32 = 0x2C;
pub const PAUSE_OFFSET: u32 = 0x30;
pub const INTR_OFFSET: u32 = 0x34;
pub const INTE_OFFSET: u32 = 0x38;
pub const INTF_OFFSET: u32 = 0x3C;
pub const INTS_OFFSET: u32 = 0x40;

#[derive(Clone, Copy, Debug, PartialEq, Eq)]
pub struct TimerRegs {
    pub alarm: [u32; 4],
    /// One bit for each armed alarm.
    pub armed: u32,
    /// The cycle at which each armed alarm is due.
    pub fire_cycle: [Option<u64>; 4],
    pub intr: u32,
    pub inte: u32,
    pub intf: u32,
    pub pause: bool,
    pub dbgpause: u32,
    /// High half of the count, latched by a read of the low half.
    pub latched_high: u32,
}

/// System clocks per microsecond; a clock below one megahertz counts as one.
pub open spec fn cycles_per_us(sys_hz: u32) -> nat {
    if sys_hz < 1_000_000 {
        1
    } else {
        (sys_hz / 1_000_000) as nat
    }
}

/// Microseconds since cycle zero.
pub open spec fn us_at(cycle: u64, sys_hz: u32) -> u64 {
    (cycle as int / cycles_per_us(sys_hz) as int) as u64
}

/// The first cycle from `cycle` on at which the low half of the count equals
/// `target`, modulo 2^64.
pub open spec fn due_cycle(target: u32, cycle: u64, sys_hz: u32) -> u64 {
    let now = us_at(cycle, sys_hz);
    let wait = (target - now % 0x1_0000_0000) % 0x1_0000_0000;
    ((((now + wait) % 0x1_0000_0000_0000_0000) * cycles_per_us(sys_hz)) % 0x1_0000_0000_0000_0000) as u64
}

impl TimerRegs {
    pub open spec fn at_reset() -> TimerRegs {
        TimerRegs {
            alarm: spec_array_fill_for_copy_type::<u32, 4>(0),
            armed: 0,
            fire_cycle: spec_array_fill_for_copy_type::<Option<u64>, 4>(None),
            intr: 0,
            inte: 0,
            intf: 0,
            pause: false,
            dbgpause: 0x7,
            latched_high: 0,
        }
    }

    /// Alarm `n` is armed and its cycle has come.
    pub open spec fn due(self, n: int, cycle: u64) -> bool {
        bit(self.armed, n) && (self.fire_cycle[n] matches Some(at) && at <= cycle)
    }

    pub open spec fn disarmed(self, n: int) -> TimerRegs {
        TimerRegs {
            armed: self.armed & !(1u32 << (n as u32)),
            fire_cycle: spec_array_update(self.fire_cycle, n, None),
            ..self
        }
    }

    /// Every alarm below `n` that `mask` names disarmed.
    pub open spec fn disarmed_upto(self, n: nat, mask: u32) -> TimerRegs
        decreases n,
    {
        if n == 0 {
            self
        } else {
            let t = self.disarmed_upto((n - 1) as nat, mask);
            if bit(mask, n - 1) {
                t.disarmed(n - 1)
            } else {
                t
            }
        }
    }

    /// Every due alarm below `n` fired: disarmed, with its interrupt latched.
    pub open spec fn fired_upto(self, n: nat, cycle: u64) -> TimerRegs
        decreases n,
    {
        if n == 0 {
            self
        } else {
            let t = self.fired_upto((n - 1) as nat, cycle);
            if t.due(n - 1, cycle) {
                TimerRegs { intr: t.intr | (1u32 << ((n - 1) as u32)), ..t.disarmed(n - 1) }
            } else {
                t
            }
        }
    }

    /// The lines that those alarms raise: the enabled or forced ones.
    pub open spec fn fired_lines_upto(self, n: nat, cycle: u64) -> u32
        decreases n,
    {
        if n == 0 {
            0
        } else {
            let lines = self.fired_lines_upto((n - 1) as nat, cycle);
            if self.fired_upto((n - 1) as nat, cycle).due(n - 1, cycle) && bit(
                self.inte | self.intf,
                n - 1,
            ) {
                lines | (1u32 << ((n - 1) as u32))
            } else {
                lines
            }
        }
    }

    pub open spec fn word_at(self, offset: u32, cycle: u64, sys_hz: u32) -> u32 {
        let now = us_at(cycle, sys_hz);
        if offset == TIMEHR_OFFSET {
            self.latched_high
        } else if offset == TIMELR_OFFSET || offset == TIMERAWL_OFFSET {
            (now % 0x1_0000_0000) as u32
        } else if offset == TIMERAWH_OFFSET {
            (now / 0x1_0000_0000) as u32
        } else if offset == 0x10 || offset == 0x14 || offset == 0x18 || offset == 0x1C {
            self.alarm[(offset - 0x10) / 4]
        } else if offset == ARMED_OFFSET {
            self.armed
        } else if offset == DBGPAUSE_OFFSET {
            self.dbgpause
        } else if offset == PAUSE_OFFSET {
            if self.pause {
                1
            } else {
                0
            }
        } else if offset == INTR_OFFSET {
            self.intr
        } else if offset == INTE_OFFSET {
            self.inte
        } else if offset == INTF_OFFSET {
            self.intf
        } else if offset == INTS_OFFSET {
            (self.intr | self.intf) & self.inte
        } else {
            0
        }
    }

    pub open spec fn after_read(self, offset: u32, cycle: u64, sys_hz: u32) -> TimerRegs {
        if offset == TIMELR_OFFSET {
            TimerRegs { latched_high: (us_at(cycle, sys_hz) / 0x1_0000_0000) as u32, ..self }
        } else {
            self
        }
    }

    /// Writing an alarm register arms that alarm.
    pub open spec fn after_write(self, offset: u32, val: u32, alias: u32, cycle: u64, sys_hz: u32) -> TimerRegs {
        if offset == 0x10 || offset == 0x14 || offset == 0x18 || offset == 0x1C {
            let n = (offset - 0x10) / 4;
            let target = aliased(self.alarm[n], val, alias);
            TimerRegs {
                alarm: spec_array_update(self.alarm, n, target),
                armed: self.armed | (1u32 << (n as u32)),
                fire_cycle: spec_array_update(
                    self.fire_cycle,
                    n,
                    Some(due_cycle(target, cycle, sys_hz)),
                ),
                ..self
            }
        } else if offset == ARMED_OFFSET {
            self.disarmed_upto(4, aliased(self.armed, val, alias))
        } else if offset == DBGPAUSE_OFFSET {
            TimerRegs { dbgpause: aliased(self.dbgpause, val, alias) & 0x7, ..self }
        } else if offset == PAUSE_OFFSET {
            TimerRegs {
                pause: aliased(
                    if self.pause {
                        1
                    } else {
                        0
                    },
                    val,
                    alias,
                ) & 1 != 0,
                ..self
            }
        } else if offset == INTR_OFFSET {
            TimerRegs { intr: self.intr & !val, ..self }
        } else if offset == INTE_OFFSET {
            TimerRegs { inte: aliased(self.inte, val, alias) & 0xF, ..self }
        } else if offset == INTF_OFFSET {
            TimerRegs { intf: aliased(self.intf, val, alias) & 0xF, ..self }
        } else {
            self
        }
    }

    /// Alarm `n` is armed, enabled and has a cycle to fire at.
    pub open spec fn scheduled(self, n: int) -> bool {
        0 <= n < 4 && bit(self.armed, n) && bit(self.inte, n) && self.fire_cycle[n] is Some
    }

    /// `at` is the soonest cycle at which a scheduled alarm fires.
    pub open spec fn fires_next_at(self, at: u64) -> bool {
        &&& exists|n: int| #[trigger] self.scheduled(n) && self.fire_cycle[n] == Some(at)
        &&& forall|n: int| #[trigger] self.scheduled(n) ==> at <= self.fire_cycle[n]->0
    }

    /// That cycle, or none where no alarm is scheduled.
    pub open spec fn next_fire(self) -> Option<u64> {
        if exists|n: int| self.scheduled(n) {
            Some(choose|at: u64| self.fires_next_at(at))
        } else {
            None
        }
    }

    pub fn new() -> (t: TimerRegs)
        ensures
            t == TimerRegs::at_reset(),
    {
        TimerRegs {
            alarm: [0;4],
            armed: 0,
            fire_cycle: [None;4],
            intr: 0,
            inte: 0,
            intf: 0,
            pause: false,
            dbgpause: 0x7,
            latched_high: 0,
        }
    }

    pub fn reset(&mut self)
        ensures
            *final(self) == TimerRegs::at_reset(),
    {
        *self = TimerRegs::new();
    }

    pub fn is_idle(&self) -> (out: bool)
        ensures
            out == (self.intr == 0),
    {
        self.intr == 0
    }

    fn per_us(sys_hz: u32) -> (out: u64)
        ensures
            out == cycles_per_us(sys_hz),
            out > 0,
    {
        if sys_hz < 1_000_000 {
            1
        } else {
            (sys_hz / 1_000_000) as u64
        }
    }

    pub fn now_us(&self, cycle: u64, sys_hz: u32) -> (out: u64)
        ensures
            out == us_at(cycle, sys_hz),
    {
        cycle / TimerRegs::per_us(sys_hz)
    }

    pub fn read32(&mut self, offset: u32, cycle: u64, sys_hz: u32) -> (out: u32)
        ensures
            out == old(self).word_at(offset, cycle, sys_hz),
            *final(self) == old(self).after_read(offset, cycle, sys_hz),
    {
        let now: u64 = self.now_us(cycle, sys_hz);
        if offset == TIMEHR_OFFSET {
            self.latched_high
        } else if offset == TIMELR_OFFSET {
            self.latched_high = (now / 0x1_0000_0000) as u32;
            (now % 0x1_0000_0000) as u32
        } else if offset == TIMERAWL_OFFSET {
            (now % 0x1_0000_0000) as u32
        } else if offset == TIMERAWH_OFFSET {
            (now / 0x1_0000_0000) as u32
        } else if offset == 0x10 || offset == 0x14 || offset == 0x18 || offset == 0x1C {
            self.alarm[((offset - 0x10) / 4) as usize]
        } else if offset == ARMED_OFFSET {
            self.armed
        } else if offset == DBGPAUSE_OFFSET {
            self.dbgpause
        } else if offset == PAUSE_OFFSET {
            if self.pause {
                1
            } else {
                0
            }
        } else if offset == INTR_OFFSET {
            self.intr
        } else if offset == INTE_OFFSET {
            self.inte
        } else if offset == INTF_OFFSET {
            self.intf
        } else if offset == INTS_OFFSET {
            (self.intr | self.intf) & self.inte
        } else {
            0
        }
    }

    fn arm(&mut self, n: usize, target: u32, cycle: u64, sys_hz: u32)
        requires
            n < 4,
        ensures
            *final(self) == (TimerRegs {
                alarm: spec_array_update(old(self).alarm, n as int, target),
                armed: old(self).armed | (1u32 << (n as u32)),
                fire_cycle: spec_array_update(
                    old(self).fire_cycle,
                    n as int,
                    Some(due_cycle(target, cycle, sys_hz)),
                ),
                ..*old(self)
            }),
    {
        let now: u64 = self.now_us(cycle, sys_hz);
        let wait: u32 = target.wrapping_sub((now % 0x1_0000_0000) as u32);
        let at: u64 = now.wrapping_add(wait as u64).wrapping_mul(TimerRegs::per_us(sys_hz));
        self.alarm[n] = target;
        self.armed = self.armed | (1u32 << (n as u32));
        self.fire_cycle[n] = Some(at);
    }

    fn disarm(&mut self, mask: u32)
        ensures
            *final(self) == old(self).disarmed_upto(4, mask),
    {
        let ghost before = *self;
        let mut n: usize = 0;
        while n < 4
            invariant
                n <= 4,
                *self == before.disarmed_upto(n as nat, mask),
            decreases 4 - n,
        {
            if (mask >> (n as u32)) & 1 == 1 {
                self.armed = self.armed & !(1u32 << (n as u32));
                self.fire_cycle[n] = None;
            }
            n += 1;
        }
    }

    pub fn write32(&mut self, offset: u32, val: u32, alias: u32, cycle: u64, sys_hz: u32)
        ensures
            *final(self) == old(self).after_write(offset, val, alias, cycle, sys_hz),
    {
        if offset == 0x10 || offset == 0x14 || offset == 0x18 || offset == 0x1C {
            let n: usize = ((offset - 0x10) / 4) as usize;
            let target: u32 = apply_alias(self.alarm[n], val, alias);
            self.arm(n, target, cycle, sys_hz);
        } else if offset == ARMED_OFFSET {
            let mask: u32 = apply_alias(self.armed, val, alias);
            self.disarm(mask);
        } else if offset == DBGPAUSE_OFFSET {
            self.dbgpause = apply_alias(self.dbgpause, val, alias) & 0x7;
        } else if offset == PAUSE_OFFSET {
            let cur: u32 = if self.pause {
                1
            } else {
                0
            };
            self.pause = apply_alias(cur, val, alias) & 1 != 0;
        } else if offset == INTR_OFFSET {
            self.intr = self.intr & !val;
        } else if offset == INTE_OFFSET {
            self.inte = apply_alias(self.inte, val, alias) & 0xF;
        } else if offset == INTF_OFFSET {
            self.intf = apply_alias(self.intf, val, alias) & 0xF;
        }
    }

    /// Fires every alarm that is due at `cycle` and returns the interrupt
    /// lines that they raise. The clock frequency plays no part: each alarm
    /// carries its cycle.
    pub fn poll_alarms(&mut self, cycle: u64, sys_hz: u32) -> (lines: u32)
        ensures
            *final(self) == old(self).fired_upto(4, cycle),
            lines == old(self).fired_lines_upto(4, cycle),
    {
        let ghost before = *self;
        let mut lines: u32 = 0;
        let mut n: usize = 0;
        while n < 4
            invariant
                n <= 4,
                *self == before.fired_upto(n as nat, cycle),
                self.inte == before.inte,
                self.intf == before.intf,
                lines == before.fired_lines_upto(n as nat, cycle),
            decreases 4 - n,
        {
            let due = (self.armed >> (n as u32)) & 1 == 1 && (match self.fire_cycle[n] {
                Some(at) => at <= cycle,
                None => false,
            });
            if due {
                self.armed = self.armed & !(1u32 << (n as u32));
                self.fire_cycle[n] = None;
                self.intr = self.intr | (1u32 << (n as u32));
                if ((self.inte | self.intf) >> (n as u32)) & 1 == 1 {
                    lines = lines | (1u32 << (n as u32));
                }
            }
            n += 1;
        }
        lines
    }

    /// The soonest cycle at which an armed and enabled alarm fires.
    pub fn next_armed_inte_fire_cycle(&self) -> (out: Option<u64>)
        ensures
            out == self.next_fire(),
            out matches Some(at) ==> self.fires_next_at(at),
    {
        let mut best: Option<u64> = None;
        let mut n: usize = 0;
        while n < 4
            invariant
                n <= 4,
                best is None ==> forall|k: int| k < n ==> !self.scheduled(k),
                best matches Some(at) ==> {
                    &&& exists|k: int| self.scheduled(k) && self.fire_cycle[k] == Some(at)
                    &&& forall|k: int| k < n && #[trigger] self.scheduled(k) ==> at <= self.fire_cycle[k]->0
                },
            decreases 4 - n,
        {
            if (self.armed >> (n as u32)) & 1 == 1 && (self.inte >> (n as u32)) & 1 == 1 {
                match self.fire_cycle[n] {
                    Some(at) => {
                        assert(self.scheduled(n as int));
                        match best {
                            None => {
                                best = Some(at);
                            },
                            Some(b) => {
                                if at < b {
                                    best = Some(at);
                                }
                            },
                        }
                    },
                    None => {},
                }
            }
            n += 1;
        }
        proof {
            if let Some(at) = best {
                assert(self.fires_next_at(at));
                let other = choose|at: u64| self.fires_next_at(at);
                assert(self.fires_next_at(other));
            }
        }
        best
    }
}

impl Default for TimerRegs {
    fn default() -> (t: TimerRegs)
        ensures
            t == TimerRegs::at_reset(),
    {
        TimerRegs::new()
    }
}

/// Polling fires exactly the alarms that were due: each of them comes out
/// disarmed with its interrupt latched, every other alarm as it went in.
pub proof fn law_poll_fires_exactly_the_due(t: TimerRegs, n: nat, k: int, cycle: u64)
    requires
        n <= 4,
        0 <= k < 4,
    ensures
        k < n && t.due(k, cycle) ==> !bit(t.fired_upto(n, cycle).armed, k) && bit(
            t.fired_upto(n, cycle).intr,
            k,
        ) && t.fired_upto(n, cycle).fire_cycle[k] is None,
        !(k < n && t.due(k, cycle)) ==> bit(t.fired_upto(n, cycle).armed, k) == bit(t.armed, k) && bit(
            t.fired_upto(n, cycle).intr,
            k,
        ) == bit(t.intr, k) && t.fired_upto(n, cycle).fire_cycle[k] == t.fire_cycle[k],
    decreases n,
{
    if n > 0 {
        let m = (n - 1) as nat;
        law_poll_fires_exactly_the_due(t, m, k, cycle);
        law_poll_fires_exactly_the_due(t, m, m as int, cycle);
        let u = t.fired_upto(m, cycle);
        lemma_set_clear_bit(u.armed, m as u32, k as u32);
        lemma_set_clear_bit(u.intr, m as u32, k as u32);
    }
}

} // verus!
