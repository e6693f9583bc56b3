use asterisk_apps::disa::{AppDisa, DisaArgs, DisaOptions};
use asterisk_apps::DialplanApp;

#[test]
fn test_parse_disa_args_basic() {
    let args = DisaArgs::parse("1234").unwrap();
    assert_eq!(args.passcode, "1234");
    assert_eq!(args.context, "disa");
    assert!(args.caller_id.is_none());
    assert!(args.mailbox.is_none());
}

#[test]
fn test_parse_disa_args_full() {
    let args = DisaArgs::parse("1234,internal,\"John\" <1000>,100@default,np").unwrap();
    assert_eq!(args.passcode, "1234");
    assert_eq!(args.context, "internal");
    assert!(args.caller_id.is_some());
    assert!(args.mailbox.is_some());
    assert!(args.options.no_answer);
    assert!(args.options.pound_to_end);
}

#[test]
fn test_parse_disa_args_no_password() {
    let args = DisaArgs::parse("no-password,outgoing").unwrap();
    assert!(args.is_no_password());
    assert_eq!(args.context, "outgoing");
}

#[test]
fn test_parse_disa_args_empty() {
    assert!(DisaArgs::parse("").is_none());
}

#[test]
fn test_disa_options() {
    let opts = DisaOptions::parse("np");
    assert!(opts.no_answer);
    assert!(opts.pound_to_end);
}

#[test]
fn test_disa_file_passcode() {
    let args = DisaArgs::parse("/etc/disa.pw,ctx").unwrap();
    assert!(args.is_file_passcode());
    let args = DisaArgs::parse("NO-PASSWORD").unwrap();
    assert!(args.is_no_password());
    assert!(!args.is_file_passcode());
    let args = DisaArgs::parse("987").unwrap();
    assert!(!args.is_file_passcode());
    assert!(DisaArgs::parse("  ,ctx").is_none());
}

#[test]
fn test_disa_password_file_lines() {
    let content = "# comment\n; other\n\n  5555,ctx\r\n1234\n";
    assert!(AppDisa::password_file_accepts(content, "1234"));
    assert!(AppDisa::password_file_accepts(content, "5555"));
    assert!(!AppDisa::password_file_accepts(content, "# comment"));
    assert!(!AppDisa::password_file_accepts(content, "999"));
    assert_eq!(AppDisa.name(), "DISA");
}
