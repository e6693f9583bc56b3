use asterisk_apps::dial::{dial_refused, DialLegState, DialOptions, DialResult, DialStatus, HangupCause};
use asterisk_apps::dial_teardown::{answered_vars, DialTeardown};
use asterisk_apps::directory::DirectoryEntry;
use asterisk_apps::mixmonitor::{MixMonitorOptions, MixMonitorSession, VolumeAdjust};
use asterisk_apps::morsecode::{char_to_morse, MorseType};
use asterisk_apps::playback::AudioFormat;
use asterisk_apps::queue::{QueueLogEntry, QueueLogEvent, QueueStrategy};
use asterisk_apps::read::{AppRead, ReadArgs, ReadEvent, ReadStart, ReadStatus};
use asterisk_apps::PbxExecResult;
use asterisk_apps::record::RecordArgs;
use asterisk_apps::time::Duration;

#[test]
fn strategy_names_read_back_in_any_case() {
    for s in [
        QueueStrategy::RingAll,
        QueueStrategy::LeastRecent,
        QueueStrategy::FewestCalls,
        QueueStrategy::Random,
        QueueStrategy::RoundRobin,
        QueueStrategy::Linear,
    ] {
        assert_eq!(QueueStrategy::from_str_name(s.as_str()), s);
        assert_eq!(QueueStrategy::from_str_name(&s.as_str().to_uppercase()), s);
    }
    assert_eq!(QueueStrategy::from_str_name("RrMemory"), QueueStrategy::RoundRobin);
    assert_eq!(QueueStrategy::from_str_name("LINEARX"), QueueStrategy::RingAll);
}

#[test]
fn name_dtmf_of_joined_names() {
    let a = DirectoryEntry::name_to_dtmf("John");
    let b = DirectoryEntry::name_to_dtmf("O'Neil-2");
    assert_eq!(DirectoryEntry::name_to_dtmf("JohnO'Neil-2"), format!("{}{}", a, b));
    assert_eq!(b, "66345");
    assert!(b.chars().all(|c| ('2'..='9').contains(&c)));
    assert_eq!(b.len(), 5);
}

#[test]
fn morse_ignores_case() {
    for c in 'a'..='z' {
        let lower = char_to_morse(c, MorseType::International);
        assert_eq!(lower, char_to_morse(c.to_ascii_uppercase(), MorseType::International));
        assert!(!lower.is_empty());
    }
    assert_eq!(char_to_morse('é', MorseType::American), "");
    assert_eq!(char_to_morse('\u{1f}', MorseType::International), "");
}

#[test]
fn unknown_dial_option_changes_nothing() {
    let with = DialOptions::parse("tL(60000)!T");
    let without = DialOptions::parse("tL(60000)T");
    assert_eq!(with.allow_callee_transfer, without.allow_callee_transfer);
    assert_eq!(with.allow_caller_transfer, without.allow_caller_transfer);
    assert_eq!(with.call_limit.as_ref().map(|c| c.max_ms), without.call_limit.as_ref().map(|c| c.max_ms));
    assert_eq!(with.call_limit.as_ref().map(|c| c.max_ms), Some(60000));
    assert!(with.allow_caller_transfer);
}

#[test]
fn read_attempt_over_events() {
    let args = ReadArgs::parse("PIN,,3").unwrap();
    let mut digits = Vec::new();
    let mut status = None;
    for e in [ReadEvent::Digit('1'), ReadEvent::Other, ReadEvent::Digit('2'), ReadEvent::Digit('3')] {
        status = AppRead::on_event(&args, &mut digits, e, false);
        if status.is_some() {
            break;
        }
    }
    assert_eq!(status, Some(ReadStatus::Okay));
    assert_eq!(digits, vec!['1', '2', '3']);
    let mut digits = Vec::new();
    assert_eq!(AppRead::on_event(&args, &mut digits, ReadEvent::Digit('#'), false), Some(ReadStatus::Okay));
    assert!(digits.is_empty());
    assert_eq!(AppRead::on_event(&args, &mut digits, ReadEvent::TimedOut, true), Some(ReadStatus::Hangup));
}

#[test]
fn teardown_after_an_answer() {
    let opts = DialOptions::parse("Q(USER_BUSY)");
    let mut legs = vec![
        DialLegState::Ringing,
        DialLegState::Answered,
        DialLegState::HungUp,
        DialLegState::Dialing,
    ];
    let t = DialTeardown::new(DialResult::Answered(1), false, &opts, &mut legs);
    assert_eq!(t.hang_up, vec![0, 3]);
    assert_eq!(t.cause, HangupCause::UserBusy);
    assert!(t.answer_caller);
    assert_eq!(
        legs,
        vec![DialLegState::HungUp, DialLegState::Answered, DialLegState::HungUp, DialLegState::HungUp]
    );
    let mut legs = vec![DialLegState::Answered, DialLegState::Dialing];
    let t = DialTeardown::new(DialResult::Answered(0), true, &opts, &mut legs);
    assert!(!t.answer_caller);
    assert_eq!(t.hang_up, vec![1]);
}

#[test]
fn teardown_without_an_answer() {
    let opts = DialOptions::parse("Q(USER_BUSY)");
    let mut legs = vec![DialLegState::Ringing, DialLegState::HungUp];
    let t = DialTeardown::new(DialResult::Timeout, false, &opts, &mut legs);
    assert_eq!(t.hang_up, vec![0]);
    assert_eq!(t.cause, HangupCause::NormalClearing);
    assert!(!t.answer_caller);
    assert_eq!(legs, vec![DialLegState::HungUp, DialLegState::HungUp]);
}

#[test]
fn answered_variables_values() {
    let v = answered_vars("SIP/bob-00000001", "bob", Duration::from_millis(65_432));
    let expect: Vec<(String, String)> = vec![
        ("ANSWEREDTIME".into(), "65".into()),
        ("ANSWEREDTIME_MS".into(), "65432".into()),
        ("DIALEDPEERNAME".into(), "SIP/bob-00000001".into()),
        ("DIALEDPEERNUMBER".into(), "bob".into()),
    ];
    assert_eq!(v, expect);
}

#[test]
fn queue_log_entry_is_stamped_now() {
    let entry = QueueLogEntry::new("1.1", "support", "NONE", QueueLogEvent::EnterQueue, vec![]);
    let now = std::time::SystemTime::now()
        .duration_since(std::time::UNIX_EPOCH)
        .unwrap()
        .as_secs();
    assert!(entry.timestamp <= now && now - entry.timestamp < 60);
    assert!(entry.format_line().starts_with(&format!("{}|1.1|support|NONE|ENTERQUEUE|", entry.timestamp)));
}

#[test]
fn plain_paths_and_extensions() {
    assert_eq!(AudioFormat::from_path("/sounds/hello.WAV"), AudioFormat::WavPcm16);
    assert_eq!(AudioFormat::from_path("/sounds/.wav"), AudioFormat::from_extension(""));
    let args = RecordArgs::parse("calls/x.y.gsm").unwrap();
    assert_eq!(args.output_path(), "/var/spool/asterisk/recording/calls/x.gsm");
}

#[test]
fn session_ids_are_random_uuids() {
    let s = MixMonitorSession::new("SIP/a-1", "/tmp/a.wav".to_string(), MixMonitorOptions::parse(""), None);
    let c: Vec<char> = s.id.chars().collect();
    assert_eq!(c.len(), 36);
    for (i, ch) in c.iter().enumerate() {
        if [8, 13, 18, 23].contains(&i) {
            assert_eq!(*ch, '-');
        } else {
            assert!(ch.is_ascii_digit() || ('a'..='f').contains(ch));
        }
    }
    assert_eq!(c[14], '4');
    assert!(['8', '9', 'a', 'b'].contains(&c[19]));
}

#[test]
fn read_start_decisions() {
    assert_eq!(AppRead::start(&ReadArgs::parse(""), true), ReadStart::Invalid);
    assert_eq!(ReadStart::Invalid.early_end(), Some((ReadStatus::Error, PbxExecResult::Success)));
    let skip = ReadArgs::parse("V,,,s");
    assert_eq!(AppRead::start(&skip, false), ReadStart::Skip);
    assert_eq!(ReadStart::Skip.early_end(), Some((ReadStatus::Skipped, PbxExecResult::Success)));
    assert_eq!(AppRead::start(&skip, true), ReadStart::Proceed);
    assert_eq!(AppRead::start(&ReadArgs::parse("V"), false), ReadStart::AnswerFirst);
    assert_eq!(AppRead::start(&ReadArgs::parse("V,,,n"), false), ReadStart::Proceed);
    assert_eq!(ReadStart::AnswerFirst.early_end(), None);
}

#[test]
fn dial_refusals() {
    assert_eq!(dial_refused(false, 0), Some((PbxExecResult::Failed, DialStatus::InvalidArgs)));
    assert_eq!(dial_refused(true, 0), Some((PbxExecResult::Failed, DialStatus::ChanUnavail)));
    assert_eq!(dial_refused(true, 2), None);
}

#[test]
fn volume_adjust_is_its_level() {
    for v in [-128i8, -5, -4, 0, 3, 4, 9, 127] {
        let a = VolumeAdjust::new(v);
        assert_eq!(a.value(), v.clamp(-4, 4));
        assert_eq!(VolumeAdjust::new(a.value()), a);
    }
}
