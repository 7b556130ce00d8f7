use rp2040_emu::cpu::registers::{Registers, XPSR_T};

#[test]
fn reset_has_thumb_bit_set() {
    let r = Registers::new();
    assert_eq!(r.xpsr, XPSR_T);
    assert!(!r.flag_n() && !r.flag_z() && !r.flag_c() && !r.flag_v());
}

#[test]
fn flag_accessors_roundtrip() {
    let mut r = Registers::new();
    r.set_flag_n(true);
    r.set_flag_z(true);
    r.set_flag_c(true);
    r.set_flag_v(true);
    assert!(r.flag_n() && r.flag_z() && r.flag_c() && r.flag_v());
    r.set_flag_n(false);
    r.set_flag_z(false);
    r.set_flag_c(false);
    r.set_flag_v(false);
    assert!(!r.flag_n() && !r.flag_z() && !r.flag_c() && !r.flag_v());
}

#[test]
fn set_nzcv_clears_before_set() {
    let mut r = Registers::new();
    r.set_nzcv(true, true, true, true);
    r.set_nzcv(false, true, false, true);
    assert!(!r.flag_n() && r.flag_z() && !r.flag_c() && r.flag_v());
}

#[test]
fn set_nz_picks_up_sign_and_zero() {
    let mut r = Registers::new();
    r.set_nz(0);
    assert!(!r.flag_n() && r.flag_z());
    r.set_nz(0x8000_0000);
    assert!(r.flag_n() && !r.flag_z());
    r.set_nz(1);
    assert!(!r.flag_n() && !r.flag_z());
}

#[test]
fn condition_passed_covers_all_codes() {
    let mut r = Registers::new();
    r.set_flag_z(true);
    assert!(r.condition_passed(0x0));
    assert!(!r.condition_passed(0x1));
    r.set_flag_c(true);
    assert!(r.condition_passed(0x2));
    assert!(!r.condition_passed(0x3));
    r.set_flag_n(true);
    r.set_flag_v(true);
    assert!(r.condition_passed(0xA));
    assert!(!r.condition_passed(0xB));
    assert!(r.condition_passed(0xE));
}

#[test]
fn sp_banking_helpers_respect_control_spsel() {
    let mut r = Registers::new();
    r.r[13] = 0x2000_0000;
    r.sync_sp_to_banked();
    assert_eq!(r.msp, 0x2000_0000);
    r.control |= 2;
    r.r[13] = 0x2000_1000;
    r.sync_sp_to_banked();
    assert_eq!(r.psp, 0x2000_1000);
    r.xpsr |= 0x1;
    assert!(!r.active_sp_is_psp());
}
