use asterisk_apps::read::{AppRead, ReadArgs, ReadEvent, ReadOptions, ReadStatus};
use asterisk_apps::PbxExecResult;
use asterisk_apps::time::Duration;
use asterisk_apps::DialplanApp;

#[test]
fn test_parse_read_args_minimal() {
    let args = ReadArgs::parse("RESULT").unwrap();
    assert_eq!(args.variable, "RESULT");
    assert!(args.filenames.is_empty());
    assert_eq!(args.max_digits, 0);
    assert_eq!(args.attempts, 1);
    assert_eq!(args.timeout, Duration::from_secs(0));
    assert_eq!(args.digit_timeout, Duration::from_secs(0));
}

#[test]
fn test_parse_read_args_full() {
    let args = ReadArgs::parse("DIGITS,prompt&beep,4,s,3,10,5").unwrap();
    assert_eq!(args.variable, "DIGITS");
    assert_eq!(args.filenames, vec!["prompt", "beep"]);
    assert_eq!(args.max_digits, 4);
    assert!(args.options.skip);
    assert_eq!(args.attempts, 3);
    assert_eq!(args.timeout, Duration::from_secs(10));
    assert_eq!(args.digit_timeout, Duration::from_secs(5));
}

#[test]
fn test_parse_read_args_empty() {
    assert!(ReadArgs::parse("").is_none());
}

#[test]
fn test_invalid_timeouts_use_defaults_without_panicking() {
    let args = ReadArgs::parse("DIGITS,,,,,-1,NaN").unwrap();
    assert_eq!(args.timeout, Duration::from_secs(0));
    assert_eq!(args.digit_timeout, Duration::from_secs(0));
}

#[test]
fn test_parse_options() {
    let opts = ReadOptions::parse("sin");
    assert!(opts.skip);
    assert!(opts.indication);
    assert!(opts.noanswer);
}

#[test]
fn test_parse_options_terminator() {
    let opts = ReadOptions::parse("t(*)");
    assert_eq!(opts.terminator, "*");
}

#[test]
fn test_parse_options_empty_terminator() {
    let opts = ReadOptions::parse("t");
    assert_eq!(opts.terminator, "");
}

#[test]
fn test_max_digits_clamp() {
    let args = ReadArgs::parse("VAR,prompt,999").unwrap();
    assert_eq!(args.max_digits, 255);
}

#[test]
fn test_read_defaults_and_fractions() {
    let opts = ReadOptions::parse("");
    assert_eq!(opts.terminator, "#");
    assert!(!opts.keep_terminator);
    let opts = ReadOptions::parse("et()");
    assert!(opts.keep_terminator);
    assert_eq!(opts.terminator, "");
    let args = ReadArgs::parse(" V , a&&b ,x,t(*#)n,0,2.5,0").unwrap();
    assert_eq!(args.variable, "V");
    assert_eq!(args.filenames, vec!["a", "b"]);
    assert_eq!(args.max_digits, 0);
    assert_eq!(args.options.terminator, "*#");
    assert!(args.options.noanswer);
    assert_eq!(args.attempts, 1);
    assert_eq!(args.timeout, Duration::from_millis(2500));
    assert_eq!(AppRead::overall_timeout(&args), Duration::from_millis(2500));
    assert_eq!(AppRead::digit_timeout(&args), Duration::from_secs(5));
    let args = ReadArgs::parse("V").unwrap();
    assert_eq!(AppRead::overall_timeout(&args), Duration::from_secs(10));
    assert_eq!(ReadStatus::Okay.as_str(), "OK");
    assert_eq!(ReadStatus::Skipped.as_str(), "SKIPPED");
    assert_eq!(AppRead.name(), "Read");
}

#[test]
fn test_read_on_event_digits_and_limit() {
    let args = ReadArgs::parse("PIN,,3").unwrap();
    let mut digits: Vec<char> = Vec::new();
    assert_eq!(AppRead::on_event(&args, &mut digits, ReadEvent::Digit('1'), false), None);
    assert_eq!(AppRead::on_event(&args, &mut digits, ReadEvent::Other, false), None);
    assert_eq!(AppRead::on_event(&args, &mut digits, ReadEvent::Digit('2'), false), None);
    assert_eq!(AppRead::on_event(&args, &mut digits, ReadEvent::Digit('3'), false), Some(ReadStatus::Okay));
    assert_eq!(digits, vec!['1', '2', '3']);
}

#[test]
fn test_read_on_event_terminator() {
    let args = ReadArgs::parse("PIN").unwrap();
    let mut digits = vec!['4'];
    assert_eq!(AppRead::on_event(&args, &mut digits, ReadEvent::Digit('#'), false), Some(ReadStatus::Okay));
    assert_eq!(digits, vec!['4']);
    let mut empty: Vec<char> = Vec::new();
    assert_eq!(AppRead::on_event(&args, &mut empty, ReadEvent::Digit('#'), false), Some(ReadStatus::Okay));
    assert!(empty.is_empty());
}

#[test]
fn test_read_on_event_failures_and_retry() {
    let args = ReadArgs::parse("PIN").unwrap();
    let mut digits: Vec<char> = Vec::new();
    assert_eq!(AppRead::on_event(&args, &mut digits, ReadEvent::TimedOut, false), Some(ReadStatus::Timeout));
    assert_eq!(AppRead::on_event(&args, &mut digits, ReadEvent::TimedOut, true), Some(ReadStatus::Hangup));
    assert_eq!(AppRead::on_event(&args, &mut digits, ReadEvent::Failed, false), Some(ReadStatus::Error));
    assert!(AppRead::retry_after(ReadStatus::Timeout, 0, 3));
    assert!(!AppRead::retry_after(ReadStatus::Timeout, 2, 3));
    assert!(!AppRead::retry_after(ReadStatus::Okay, 0, 3));
    assert_eq!(AppRead::exec_result(ReadStatus::Hangup), PbxExecResult::Hangup);
    assert_eq!(AppRead::exec_result(ReadStatus::Timeout), PbxExecResult::Success);
}
