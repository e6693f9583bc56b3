use asterisk_apps::hangup::{hangup_cause_from_code, AppHangup};
use asterisk_apps::{DialplanApp, HangupCause};

#[test]
fn test_hangup_cause_for_arguments() {
    assert_eq!(AppHangup::cause_for(""), HangupCause::NormalClearing);
    assert_eq!(AppHangup::cause_for("17"), HangupCause::UserBusy);
    assert_eq!(AppHangup::cause_for(" 21 "), HangupCause::CallRejected);
    assert_eq!(AppHangup::cause_for("busy"), HangupCause::NormalClearing);
    assert_eq!(AppHangup::cause_for("999"), HangupCause::NormalClearing);
    assert_eq!(AppHangup.name(), "Hangup");
}

#[test]
fn test_hangup_cause_codes() {
    for code in [0u32, 1, 2, 3, 6, 16, 17, 18, 19, 20, 21, 22, 27, 28, 31, 34, 38, 41, 42, 127] {
        assert_eq!(hangup_cause_from_code(code).code(), code);
    }
    assert_eq!(hangup_cause_from_code(5), HangupCause::NormalClearing);
    assert_eq!(HangupCause::Other(99).code(), 99);
}
