use asterisk_apps::playtones::{AppPlayTones, AppStopPlayTones, ToneSegment, ToneSpec};
use asterisk_apps::DialplanApp;

#[test]
fn test_parse_tone_spec_single() {
    let spec = ToneSpec::parse("1004/1000").unwrap();
    assert_eq!(spec.segments.len(), 1);
    assert_eq!(spec.segments[0].freq1, 1004);
    assert_eq!(spec.segments[0].freq2, 0);
    assert_eq!(spec.segments[0].duration, 1000);
}

#[test]
fn test_parse_tone_spec_dual() {
    let spec = ToneSpec::parse("350+440/0").unwrap();
    assert_eq!(spec.segments.len(), 1);
    assert_eq!(spec.segments[0].freq1, 350);
    assert_eq!(spec.segments[0].freq2, 440);
    assert_eq!(spec.segments[0].duration, 0);
}

#[test]
fn test_parse_tone_spec_cadence() {
    let spec = ToneSpec::parse("480+620/500,0/500").unwrap();
    assert_eq!(spec.segments.len(), 2);
    assert_eq!(spec.segments[0].freq1, 480);
    assert_eq!(spec.segments[0].freq2, 620);
    assert_eq!(spec.segments[0].duration, 500);
    assert_eq!(spec.segments[1].freq1, 0);
    assert_eq!(spec.segments[1].freq2, 0);
    assert_eq!(spec.segments[1].duration, 500);
}

#[test]
fn test_parse_tone_spec_milliwatt() {
    let spec = ToneSpec::parse("1004/9000,0/1000").unwrap();
    assert_eq!(spec.segments.len(), 2);
    assert_eq!(spec.segments[0].freq1, 1004);
    assert_eq!(spec.segments[0].duration, 9000);
    assert_eq!(spec.segments[1].freq1, 0);
    assert_eq!(spec.segments[1].duration, 1000);
}

#[test]
fn test_parse_tone_spec_empty() {
    assert!(ToneSpec::parse("").is_none());
}

#[test]
fn test_parse_tone_spec_edges() {
    let spec = ToneSpec::parse(" 440 , , 350+440/x ").unwrap();
    assert!(spec.repeat);
    assert_eq!(
        spec.segments,
        vec![
            ToneSegment { freq1: 440, freq2: 0, duration: 0 },
            ToneSegment { freq1: 350, freq2: 440, duration: 0 }
        ]
    );
    assert!(ToneSpec::parse("440,abc").is_none());
    assert!(ToneSpec::parse("350+/100").is_none());
    assert!(ToneSpec::parse(" , ").is_none());
    assert_eq!(AppPlayTones.name(), "PlayTones");
    assert_eq!(AppStopPlayTones.name(), "StopPlayTones");
}
