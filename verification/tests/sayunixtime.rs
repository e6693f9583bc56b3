use asterisk_apps::sayunixtime::{AppDateTime, AppSayUnixTime, SayUnixTimeOptions};
use asterisk_apps::DialplanApp;

#[test]
fn test_sayunixtime_options_defaults() {
    let opts = SayUnixTimeOptions::parse("");
    assert!(opts.unixtime.is_none());
    assert!(opts.timezone.is_empty());
    assert_eq!(opts.format, "ABdY 'digits/at' IMp");
}

#[test]
fn test_sayunixtime_options_full() {
    let opts = SayUnixTimeOptions::parse("1234567890,US/Eastern,HM");
    assert_eq!(opts.unixtime, Some(1234567890));
    assert_eq!(opts.timezone, "US/Eastern");
    assert_eq!(opts.format, "HM");
}

#[test]
fn test_sayunixtime_blank_format_and_negative_time() {
    let opts = SayUnixTimeOptions::parse(" -5 , UTC , ");
    assert_eq!(opts.unixtime, Some(-5));
    assert_eq!(opts.timezone, "UTC");
    assert_eq!(opts.format, "");
    assert!(SayUnixTimeOptions::parse("soon").unixtime.is_none());
    assert_eq!(AppSayUnixTime.name(), "SayUnixTime");
    assert_eq!(AppDateTime.name(), "DateTime");
}
