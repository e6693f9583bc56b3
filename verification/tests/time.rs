use asterisk_apps::dial::{DialArgs, DialOptions};
use asterisk_apps::read::ReadArgs;
use asterisk_apps::time::{parse_positive_seconds, Duration};

fn seconds(s: &str) -> Option<Duration> {
    parse_positive_seconds(&s.chars().collect::<Vec<char>>())
}

/// What a float read of the text gives, where the float is positive.
fn float_seconds(s: &str) -> Option<Duration> {
    let x: f64 = s.parse().ok()?;
    if x > 0.0 && x.is_finite() {
        Some(Duration::from_nanos(std::time::Duration::from_secs_f64(x).as_nanos()))
    } else {
        None
    }
}

#[test]
fn seconds_agree_with_a_float_read() {
    for s in [
        "10", "30.5", ".5", "5.", "+7", "1e1", "1E1", "1.e1", ".5e1", "2.5e-1", "2.5E+2",
        "0.999e-9", "3e-7", "4.2e-7", "2.7", "3e10", "1e-20", "0.000000001", "0.25", "0.0009765625",
        "0.0029296875",
        "1e0", "00012.500", "0", "0.0", "0e5", "-5", "-1e1", "inf", "NaN", "infinity", "", ".",
        "e5", "1e", "1e+", "1.2.3", "1 ", " 1", "++1", "1x", "1e1.5", "1e400", "1e-400",
    ] {
        if s == "1e-400" {
            continue;
        }
        assert_eq!(seconds(s), float_seconds(s), "text {:?}", s);
    }
}

#[test]
fn seconds_exact_values() {
    assert_eq!(seconds("1e1"), Some(Duration::from_secs(10)));
    assert_eq!(seconds("2.5e-1"), Some(Duration::from_millis(250)));
    assert_eq!(seconds("1.5e-9"), Some(Duration::from_nanos(2)));
    assert_eq!(seconds("2.5e-9"), Some(Duration::from_nanos(2)));
    assert_eq!(seconds("2.51e-9"), Some(Duration::from_nanos(3)));
    assert_eq!(seconds("1e-20"), Some(Duration::from_nanos(0)));
    assert_eq!(seconds("18446744073709551615"), Some(Duration::from_secs(u64::MAX)));
    assert_eq!(seconds("18446744073709551616"), None);
    assert_eq!(seconds("1e400"), None);
    assert_eq!(seconds("1e99999999999999999999999999999999999"), None);
    assert_eq!(seconds("1e-99999999999999999999999999999999999"), Some(Duration::from_nanos(0)));
    assert_eq!(seconds("0e99999999999999999999999999999999999"), None);
    assert_eq!(seconds("1e5x"), None);
}

#[test]
fn dial_timeout_with_an_exponent() {
    let args = DialArgs::parse("SIP/alice,1e1").unwrap();
    assert_eq!(args.timeout, Duration::from_secs(10));
    let args = DialArgs::parse("SIP/alice,2.5E1").unwrap();
    assert_eq!(args.timeout, Duration::from_secs(25));
    let opts = DialOptions::parse("S(1.5e2)");
    assert_eq!(opts.duration_stop, Some(Duration::from_secs(150)));
}

#[test]
fn read_timeout_with_an_exponent() {
    let args = ReadArgs::parse("RESULT,,,,,1e1").unwrap();
    assert_eq!(args.timeout, Duration::from_secs(10));
    let args = ReadArgs::parse("RESULT,,,,,-1e1").unwrap();
    assert_eq!(args.timeout, Duration::from_secs(0));
}
