use asterisk_apps::page::{AppPage, PageArgs, PageOptions, PageStatus};
use asterisk_apps::time::Duration;
use asterisk_apps::DialplanApp;

#[test]
fn test_parse_page_args_single_dest() {
    let args = PageArgs::parse("SIP/100").unwrap();
    assert_eq!(args.destinations, vec!["SIP/100"]);
    assert!(args.timeout.is_zero());
}

#[test]
fn test_parse_page_args_multiple_dests() {
    let args = PageArgs::parse("SIP/100&SIP/200&SIP/300").unwrap();
    assert_eq!(args.destinations.len(), 3);
    assert_eq!(args.destinations[0], "SIP/100");
    assert_eq!(args.destinations[1], "SIP/200");
    assert_eq!(args.destinations[2], "SIP/300");
}

#[test]
fn test_parse_page_args_with_options() {
    let args = PageArgs::parse("SIP/100&SIP/200,dqr,30").unwrap();
    assert_eq!(args.destinations.len(), 2);
    assert!(args.options.duplex);
    assert!(args.options.quiet);
    assert!(args.options.record);
    assert_eq!(args.timeout, Duration::from_secs(30));
}

#[test]
fn test_parse_page_args_with_announcement() {
    let args = PageArgs::parse("SIP/100,A(announcement)").unwrap();
    assert_eq!(args.options.announcement.as_deref(), Some("announcement"));
}

#[test]
fn test_parse_page_args_empty() {
    assert!(PageArgs::parse("").is_none());
}

#[test]
fn test_page_options() {
    let opts = PageOptions::parse("dqs");
    assert!(opts.duplex);
    assert!(opts.quiet);
    assert!(opts.skip_inuse);
    assert!(!opts.record);
}

#[test]
fn test_page_blank_destinations_and_predial() {
    assert!(PageArgs::parse(" & , d").is_none());
    let args = PageArgs::parse(" SIP/1 & & SIP/2 ,b(sub)B(sub2)in,x").unwrap();
    assert_eq!(args.destinations, vec!["SIP/1", "SIP/2"]);
    assert_eq!(args.options.predial_callee.as_deref(), Some("sub"));
    assert_eq!(args.options.predial_caller.as_deref(), Some("sub2"));
    assert!(args.options.ignore_forwards && args.options.no_caller_announce);
    assert!(args.timeout.is_zero());
    assert_eq!(AppPage::status_for(""), PageStatus::Failed);
    assert_eq!(AppPage::status_for("SIP/1").as_str(), "SUCCESS");
    assert_eq!(PageStatus::Timeout.as_str(), "TIMEOUT");
    assert_eq!(AppPage.name(), "Page");
}
