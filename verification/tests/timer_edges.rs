use rp2040_emu::peripherals::timer::{ALARM0_OFFSET, ARMED_OFFSET, INTE_OFFSET, INTF_OFFSET, PAUSE_OFFSET, TimerRegs};

const SYS: u32 = 125_000_000;

#[test]
fn poll_alarms_armed_with_future_fire_cycle_no_op() {
    let mut t = TimerRegs::new();
    t.write32(ALARM0_OFFSET, 1_000, 0, 0, SYS);
    let bits = t.poll_alarms(100 * 125, SYS);
    assert_eq!(bits, 0, "no fire before fire_cycle");
    let armed = t.read32(ARMED_OFFSET, 0, SYS);
    assert_eq!(armed & 1, 1, "alarm still armed");
}

#[test]
fn poll_alarms_neither_inte_nor_intf_no_route() {
    let mut t = TimerRegs::new();
    t.write32(INTE_OFFSET, 0, 0, 0, SYS);
    t.write32(INTF_OFFSET, 0, 0, 0, SYS);
    t.write32(ALARM0_OFFSET, 50, 0, 0, SYS);
    let bits = t.poll_alarms(50 * 125, SYS);
    assert_eq!(bits, 0);
}

#[test]
fn next_armed_fire_cycle_skips_inte_clear() {
    let mut t = TimerRegs::new();
    t.write32(ALARM0_OFFSET, 100, 0, 0, SYS);
    assert_eq!(t.next_armed_inte_fire_cycle(), None);
}

#[test]
fn next_armed_fire_cycle_returns_armed_inte_min() {
    let mut t = TimerRegs::new();
    t.write32(INTE_OFFSET, 0xF, 0, 0, SYS);
    t.write32(ALARM0_OFFSET, 200, 0, 0, SYS);
    t.write32(ALARM0_OFFSET + 4, 100, 0, 0, SYS);
    let fc = t.next_armed_inte_fire_cycle();
    assert_eq!(fc, Some(100 * 125), "soonest armed+inte fire-cycle");
}

#[test]
fn armed_write_zero_does_not_disarm() {
    let mut t = TimerRegs::new();
    t.write32(ALARM0_OFFSET, 100, 0, 0, SYS);
    assert_eq!(t.read32(ARMED_OFFSET, 0, SYS) & 1, 1);
    t.write32(ARMED_OFFSET, 0, 0, 0, SYS);
    assert_eq!(
        t.read32(ARMED_OFFSET, 0, SYS) & 1,
        1,
        "zero disarm mask must not affect armed bits"
    );
}

#[test]
fn pause_alias_with_pause_already_true() {
    let mut t = TimerRegs::new();
    t.write32(PAUSE_OFFSET, 1, 0, 0, SYS);
    t.write32(PAUSE_OFFSET, 0, 2, 0, SYS);
    assert_eq!(t.read32(PAUSE_OFFSET, 0, SYS), 1);
}
