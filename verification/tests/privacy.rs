use asterisk_apps::privacy::{AppPrivacyManager, PrivacyArgs, PrivacyStatus};
use asterisk_apps::DialplanApp;

#[test]
fn test_parse_privacy_args_defaults() {
    let args = PrivacyArgs::parse("");
    assert_eq!(args.max_retries, 3);
    assert_eq!(args.min_length, 10);
    assert!(args.check_context.is_none());
}

#[test]
fn test_parse_privacy_args_custom() {
    let args = PrivacyArgs::parse("5,7,,from-internal");
    assert_eq!(args.max_retries, 5);
    assert_eq!(args.min_length, 7);
    assert_eq!(args.check_context.as_deref(), Some("from-internal"));
}

#[test]
fn test_parse_privacy_args_partial() {
    let args = PrivacyArgs::parse("2");
    assert_eq!(args.max_retries, 2);
    assert_eq!(args.min_length, 10); // default
}

#[test]
fn test_privacy_status_strings() {
    assert_eq!(PrivacyStatus::Success.as_str(), "SUCCESS");
    assert_eq!(PrivacyStatus::Failed.as_str(), "FAILED");
}

#[test]
fn test_privacy_zero_and_junk_keep_defaults() {
    let args = PrivacyArgs::parse("0,x,opts,  ,");
    assert_eq!(args.max_retries, 3);
    assert_eq!(args.min_length, 10);
    assert_eq!(args.check_context.as_deref(), Some(","));
    let d = PrivacyArgs::default();
    assert_eq!((d.max_retries, d.min_length), (3, 10));
    assert_eq!(AppPrivacyManager.name(), "PrivacyManager");
}
