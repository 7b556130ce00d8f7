use rp2040_emu::cpu::decode::is_wide;

#[test]
fn is_wide_accepts_only_11110_prefix() {
    assert!(is_wide(0xF000));
    assert!(is_wide(0xF7FF));
    assert!(!is_wide(0xE800));
    assert!(!is_wide(0xF800));
    assert!(!is_wide(0x0000));
    assert!(!is_wide(0xE000));
}
