use asterisk_apps::mixmonitor::{
    AppMixMonitor, AppStopMixMonitor, MixMonitorArgs, MixMonitorOptions, MixMonitorSession,
    MixMonitorStatus, VolumeAdjust,
};
use asterisk_apps::DialplanApp;
use std::path::PathBuf;

#[test]
fn test_parse_mixmonitor_args_basic() {
    let args = MixMonitorArgs::parse("recording.wav").unwrap();
    assert_eq!(args.filename, "recording.wav");
    assert!(args.post_command.is_none());
}

#[test]
fn test_parse_mixmonitor_args_with_options() {
    let args = MixMonitorArgs::parse("recording.wav,abv(-2)V(3)").unwrap();
    assert_eq!(args.filename, "recording.wav");
    assert!(args.options.append);
    assert!(args.options.bridge_only);
    assert_eq!(args.options.read_volume.value(), -2);
    assert_eq!(args.options.write_volume.value(), 3);
}

#[test]
fn test_parse_mixmonitor_args_with_command() {
    let args = MixMonitorArgs::parse("rec.wav,a,/usr/bin/process.sh ${FILENAME}").unwrap();
    assert_eq!(args.post_command.as_deref(), Some("/usr/bin/process.sh ${FILENAME}"));
}

#[test]
fn test_parse_mixmonitor_args_empty() {
    assert!(MixMonitorArgs::parse("").is_none());
}

#[test]
fn test_options_volume_clamp() {
    let v = VolumeAdjust::new(10);
    assert_eq!(v.value(), 4);
    let v = VolumeAdjust::new(-10);
    assert_eq!(v.value(), -4);
}

#[test]
fn test_options_beep_interval() {
    let opts = MixMonitorOptions::parse("B(30)");
    assert_eq!(opts.beep_interval, 30);
}

#[test]
fn test_options_id_variable() {
    let opts = MixMonitorOptions::parse("i(MIXMON_ID)");
    assert_eq!(opts.id_variable.as_deref(), Some("MIXMON_ID"));
}

#[test]
fn test_options_both_volume() {
    let opts = MixMonitorOptions::parse("W(2)");
    assert_eq!(opts.read_volume.value(), 2);
    assert_eq!(opts.write_volume.value(), 2);
}

#[test]
fn test_output_path_relative() {
    let args = MixMonitorArgs::parse("call.wav").unwrap();
    assert_eq!(
        PathBuf::from(args.output_path()),
        PathBuf::from("/var/spool/asterisk/monitor/call.wav")
    );
}

#[test]
fn mixmonitor_test_output_path_absolute() {
    let args = MixMonitorArgs::parse("/tmp/call.wav").unwrap();
    assert_eq!(PathBuf::from(args.output_path()), PathBuf::from("/tmp/call.wav"));
}

#[test]
fn test_session_creation() {
    let session = MixMonitorSession::new(
        "SIP/test-001",
        "/tmp/test.wav".to_string(),
        MixMonitorOptions::default(),
        None,
    );
    assert_eq!(session.status, MixMonitorStatus::Active);
    assert!(!session.stop_requested);
    assert_eq!(session.bytes_written, 0);
}

#[test]
fn test_session_stop_and_id() {
    let mut session = MixMonitorSession::new(
        "SIP/test-002",
        "/tmp/x.wav".to_string(),
        MixMonitorOptions::parse("p"),
        Some("cmd".to_string()),
    );
    assert_eq!(session.id.len(), 36);
    assert_eq!(session.id.chars().nth(8), Some('-'));
    session.request_stop();
    assert!(session.stop_requested);
    assert_eq!(session.status, MixMonitorStatus::Active);
    let _ = session.elapsed();
}

#[test]
fn test_options_defaults_and_overrides() {
    let opts = MixMonitorOptions::parse("B");
    assert_eq!(opts.beep_interval, 15);
    let opts = MixMonitorOptions::parse("B(x)");
    assert_eq!(opts.beep_interval, 15);
    let opts = MixMonitorOptions::parse("v(1)W(-3)");
    assert_eq!(opts.read_volume.value(), 1);
    assert_eq!(opts.write_volume.value(), -3);
    let opts = MixMonitorOptions::parse("r(in.wav)t()Dnc");
    assert_eq!(opts.receive_file.as_deref(), Some("in.wav"));
    assert!(opts.transmit_file.is_none());
    assert!(opts.stereo && opts.no_sync_silence && opts.real_callerid);
    let opts = MixMonitorOptions::parse("v(abc)");
    assert_eq!(opts.read_volume.value(), 0);
    assert_eq!(MixMonitorStatus::Stopped.as_str(), "STOPPED");
    assert_eq!(VolumeAdjust::default().value(), 0);
    assert_eq!(AppMixMonitor.name(), "MixMonitor");
    assert_eq!(AppStopMixMonitor.name(), "StopMixMonitor");
}
