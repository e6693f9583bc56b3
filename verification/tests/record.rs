use asterisk_apps::record::{AppRecord, RecordArgs, RecordOptions, RecordStatus};
use asterisk_apps::time::Duration;
use asterisk_apps::{DialplanApp, PbxExecResult};
use std::path::PathBuf;

#[test]
fn test_parse_record_args() {
    let args = RecordArgs::parse("recording.wav,3,60,aq").unwrap();
    assert_eq!(args.filename, "recording");
    assert_eq!(args.format, "wav");
    assert_eq!(args.silence_threshold, Duration::from_secs(3));
    assert_eq!(args.max_duration, Duration::from_secs(60));
    assert!(args.options.append);
    assert!(args.options.quiet);
}

#[test]
fn test_parse_record_args_minimal() {
    let args = RecordArgs::parse("test.gsm").unwrap();
    assert_eq!(args.filename, "test");
    assert_eq!(args.format, "gsm");
    assert_eq!(args.silence_threshold, Duration::from_secs(0));
    assert_eq!(args.max_duration, Duration::from_secs(0));
}

#[test]
fn test_parse_record_args_invalid() {
    assert!(RecordArgs::parse("noextension").is_none());
    assert!(RecordArgs::parse(".wav").is_none());
    assert!(RecordArgs::parse("name.").is_none());
}

#[test]
fn test_output_path() {
    let args = RecordArgs::parse("myrecording.wav").unwrap();
    assert_eq!(
        PathBuf::from(args.output_path()),
        PathBuf::from("/var/spool/asterisk/recording/myrecording.wav")
    );
}

#[test]
fn record_test_output_path_absolute() {
    let args = RecordArgs::parse("/tmp/myrecording.wav").unwrap();
    assert_eq!(PathBuf::from(args.output_path()), PathBuf::from("/tmp/myrecording.wav"));
}

#[test]
fn test_record_options() {
    let opts = RecordOptions::parse("aqst");
    assert!(opts.append);
    assert!(opts.quiet);
    assert!(opts.skip);
    assert!(opts.star_terminate);
    assert_eq!(opts.terminator(), Some('*'));
}

#[test]
fn test_record_options_ignore_terminate() {
    let opts = RecordOptions::parse("x");
    assert!(opts.ignore_terminate);
    assert_eq!(opts.terminator(), None);
}

#[test]
fn test_record_status_strings() {
    assert_eq!(RecordStatus::Dtmf.as_str(), "DTMF");
    assert_eq!(RecordStatus::Silence.as_str(), "SILENCE");
    assert_eq!(RecordStatus::Timeout.as_str(), "TIMEOUT");
    assert_eq!(RecordStatus::Hangup.as_str(), "HANGUP");
}

#[test]
fn test_record_dotted_names_and_results() {
    let args = RecordArgs::parse(" a.b.wav , x , 5 , k ").unwrap();
    assert_eq!(args.filename, "a.b");
    assert_eq!(args.format, "wav");
    assert_eq!(args.silence_threshold, Duration::from_secs(0));
    assert_eq!(args.max_duration, Duration::from_secs(5));
    assert!(args.options.keep_on_hangup);
    // the extension of "a.b" is replaced by the format
    assert_eq!(args.output_path(), "/var/spool/asterisk/recording/a.wav");
    assert_eq!(RecordOptions::parse("").terminator(), Some('#'));
    assert_eq!(RecordStatus::Hangup.exec_result(), PbxExecResult::Hangup);
    assert_eq!(RecordStatus::Error.exec_result(), PbxExecResult::Failed);
    assert_eq!(RecordStatus::Silence.exec_result(), PbxExecResult::Success);
    assert_eq!(AppRecord.name(), "Record");
}

#[test]
fn test_record_check() {
    let args = RecordArgs::parse("/tmp/rec.wav,3,10").unwrap();
    let s = |n: u64| Duration::from_secs(n);
    assert_eq!(AppRecord::check(&args, true, s(0), s(0)), Some(RecordStatus::Hangup));
    assert_eq!(AppRecord::check(&args, false, s(10), s(0)), Some(RecordStatus::Timeout));
    assert_eq!(AppRecord::check(&args, false, s(5), s(3)), Some(RecordStatus::Silence));
    assert_eq!(AppRecord::check(&args, false, s(5), s(2)), None);
    let open = RecordArgs::parse("/tmp/rec.wav").unwrap();
    assert_eq!(AppRecord::check(&open, false, s(10_000), s(10_000)), None);
}
