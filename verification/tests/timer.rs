use rp2040_emu::peripherals::timer::{ALARM0_OFFSET, ARMED_OFFSET, DBGPAUSE_OFFSET, INTE_OFFSET, INTF_OFFSET, INTR_OFFSET, INTS_OFFSET, PAUSE_OFFSET, TIMEHR_OFFSET, TIMEHW_OFFSET, TIMELR_OFFSET, TIMELW_OFFSET, TIMERAWH_OFFSET, TIMERAWL_OFFSET, TimerRegs};

const SYS: u32 = 125_000_000;

#[test]
fn time_helpers_handle_zero_sys_hz() {
    let mut t = TimerRegs::new();
    let lo = t.read32(TIMELR_OFFSET, 1000, 0);
    assert_eq!(lo, 1000, "sys_hz=0 collapses divisor to 1");
}

#[test]
fn poll_armed_without_fire_cycle() {
    let mut t = TimerRegs::new();
    t.write32(ALARM0_OFFSET, 100, 0, 0, SYS);
    let _ = t.poll_alarms(200 * 125, SYS);
}

#[test]
fn poll_alarm_before_target_does_not_fire() {
    let mut t = TimerRegs::new();
    t.write32(ALARM0_OFFSET, 100, 0, 0, SYS);
    let r = t.poll_alarms(50 * 125, SYS);
    assert_eq!(r, 0, "before target must not fire");
}

#[test]
fn poll_alarm_without_inte_latches_but_not_routes() {
    let mut t = TimerRegs::new();
    t.write32(ALARM0_OFFSET, 100, 0, 0, SYS);
    let bits = t.poll_alarms(100 * 125, SYS);
    assert_eq!(bits, 0);
    assert_eq!(t.read32(INTR_OFFSET, 0, SYS) & 1, 1);
}

#[test]
fn pause_read_both_states() {
    let mut t = TimerRegs::new();
    assert_eq!(t.read32(PAUSE_OFFSET, 0, SYS), 0);
    t.write32(PAUSE_OFFSET, 1, 0, 0, SYS);
    assert_eq!(t.read32(PAUSE_OFFSET, 0, SYS), 1);
}

#[test]
fn time_pair_writes_are_noops() {
    let mut t = TimerRegs::new();
    t.write32(TIMEHW_OFFSET, 0xFFFF, 0, 0, SYS);
    t.write32(TIMELW_OFFSET, 0xFFFF, 0, 0, SYS);
    t.write32(TIMEHR_OFFSET, 0xFFFF, 0, 0, SYS);
    t.write32(TIMELR_OFFSET, 0xFFFF, 0, 0, SYS);
    assert_eq!(t.read32(TIMEHR_OFFSET, 0, SYS), 0);
}

#[test]
fn rawh_rawl_writes_ignored() {
    let mut t = TimerRegs::new();
    t.write32(TIMERAWH_OFFSET, 0xFFFF, 0, 0, SYS);
    t.write32(TIMERAWL_OFFSET, 0xFFFF, 0, 0, SYS);
    assert_eq!(t.read32(TIMERAWL_OFFSET, 0, SYS), 0);
}

#[test]
fn dbgpause_storage_and_alias() {
    let mut t = TimerRegs::new();
    t.write32(DBGPAUSE_OFFSET, 0xFF, 0, 0, SYS);
    assert_eq!(t.read32(DBGPAUSE_OFFSET, 0, SYS), 0x7);
}

#[test]
fn ints_write_is_noop() {
    let mut t = TimerRegs::new();
    t.write32(INTS_OFFSET, 0xFFFF, 0, 0, SYS);
    assert_eq!(t.read32(INTS_OFFSET, 0, SYS), 0);
}

#[test]
fn unknown_offset_write_ignored() {
    let mut t = TimerRegs::new();
    t.write32(0x100, 0xFFFF, 0, 0, SYS);
    let _ = t.read32(0x100, 0, SYS);
}

#[test]
fn pause_alias_roundtrip() {
    let mut t = TimerRegs::new();
    t.write32(PAUSE_OFFSET, 1, 2, 0, SYS);
    assert_eq!(t.read32(PAUSE_OFFSET, 0, SYS), 1);
    t.write32(PAUSE_OFFSET, 1, 3, 0, SYS);
    assert_eq!(t.read32(PAUSE_OFFSET, 0, SYS), 0);
}

#[test]
fn alarm_read_back_all_four_slots() {
    let mut t = TimerRegs::new();
    for i in 0..4u32 {
        t.write32(ALARM0_OFFSET + i * 4, 100 + i, 0, 0, SYS);
    }
    for i in 0..4u32 {
        assert_eq!(t.read32(ALARM0_OFFSET + i * 4, 0, SYS), 100 + i);
    }
}

#[test]
fn timer_default_constructor() {
    let _t: TimerRegs = Default::default();
}

#[test]
fn now_us_returns_master_cycle_in_us() {
    let t = TimerRegs::new();
    assert_eq!(t.now_us(250, SYS), 2);
}

#[test]
fn inte_intr_reads_return_stored() {
    let mut t = TimerRegs::new();
    t.write32(INTE_OFFSET, 0xF, 0, 0, SYS);
    assert_eq!(t.read32(INTE_OFFSET, 0, SYS), 0xF);
    t.write32(INTR_OFFSET, 0, 0, 0, SYS);
    assert_eq!(t.read32(INTR_OFFSET, 0, SYS), 0);
}

#[test]
fn unknown_offset_read_default() {
    let mut t = TimerRegs::new();
    assert_eq!(t.read32(0x100, 0, SYS), 0);
}

#[test]
fn armed_bitclr_alias_disarms_inverse() {
    let mut t = TimerRegs::new();
    t.write32(ALARM0_OFFSET, 100, 0, 0, SYS);
    t.write32(ALARM0_OFFSET + 4, 200, 0, 0, SYS);
    t.write32(ARMED_OFFSET, 0b01, 3, 0, SYS);
    let rb = t.read32(ARMED_OFFSET, 0, SYS) & 0b11;
    assert_eq!(rb, 0b01, "alarm 0 remains armed; alarm 1 disarmed");
}

#[test]
fn intf_inte_alias_roundtrip() {
    let mut t = TimerRegs::new();
    t.write32(INTE_OFFSET, 0xF, 0, 0, SYS);
    t.write32(INTF_OFFSET, 0x3, 0, 0, SYS);
}
