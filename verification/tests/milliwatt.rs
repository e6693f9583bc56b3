use asterisk_apps::milliwatt::{AppMilliwatt, MilliwattOptions, DIGITAL_MILLIWATT};
use asterisk_apps::DialplanApp;

#[test]
fn test_milliwatt_options_empty() {
    let opts = MilliwattOptions::parse("");
    assert!(!opts.milliwatt_test);
    assert!(!opts.old_behavior);
}

#[test]
fn test_milliwatt_options_m() {
    let opts = MilliwattOptions::parse("m");
    assert!(opts.milliwatt_test);
    assert!(!opts.old_behavior);
}

#[test]
fn test_milliwatt_options_o() {
    let opts = MilliwattOptions::parse("o");
    assert!(!opts.milliwatt_test);
    assert!(opts.old_behavior);
}

#[test]
fn test_digital_milliwatt_pattern() {
    assert_eq!(DIGITAL_MILLIWATT.len(), 8);
    // Pattern is symmetric
    assert_eq!(DIGITAL_MILLIWATT[0], 0x1e);
    assert_eq!(DIGITAL_MILLIWATT[4], 0x9e);
}

#[test]
fn test_generate_samples() {
    let mut buf = [0u8; 16];
    let new_idx = AppMilliwatt::generate_samples(&mut buf, 0);
    assert_eq!(new_idx, 0); // 16 % 8 == 0
    // First 8 bytes should match the pattern
    assert_eq!(&buf[..8], &DIGITAL_MILLIWATT);
    // Second 8 bytes should also match (repeating)
    assert_eq!(&buf[8..], &DIGITAL_MILLIWATT);
}

#[test]
fn test_generate_samples_offset() {
    let mut buf = [0u8; 3];
    let new_idx = AppMilliwatt::generate_samples(&mut buf, 14);
    assert_eq!(new_idx, 1);
    assert_eq!(buf, [DIGITAL_MILLIWATT[6], DIGITAL_MILLIWATT[7], DIGITAL_MILLIWATT[0]]);
    assert_eq!(AppMilliwatt.name(), "Milliwatt");
    assert_eq!(AppMilliwatt::TONE_FREQ, 1004);
}
